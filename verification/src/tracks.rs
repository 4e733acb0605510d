//! Branch tracks, and how they are drawn, by the `gleisbau` crate.

use std::cell::RefCell;
use std::hash::Hash;
use std::rc::Rc;

use git2::Oid;
use gleisbau::layout::{layout_track_range, TrackLayout};
use gleisbau::print::format::CommitFormat;
use gleisbau::print::unicode::print_graph_terminal;
use gleisbau::settings::{BranchOrder, BranchSettings, BranchSettingsDef};
use gleisbau::settings::{Characters, MergePatterns, Settings};
use gleisbau::track::{Builder, TrackMap};
use vstd::prelude::*;

use crate::commit_id::CommitId;
use crate::text::texts;

verus! {

/// Most commits that can be drawn of: their indices are handled as numbers of 32 bits with a sign.
pub const TRACK_LIMIT: usize = 0x8000_0000;

/// Bytes that suffice for one cell of a drawn graph.
pub const CELL_BYTES: usize = 128;

/// `git2::Oid`, the id of an object.
#[verifier::external_type_specification]
#[verifier::external_body]
pub struct ExOid(git2::Oid);

/// `std::cell::RefCell`, through which a builder and its owner share the tracks.
#[verifier::external_type_specification]
#[verifier::external_body]
#[verifier::reject_recursive_types(T)]
pub struct ExRefCell<T: ?Sized>(std::cell::RefCell<T>);

/// `gleisbau::track::TrackMap`, commits grouped into tracks.
#[verifier::external_type_specification]
#[verifier::external_body]
#[verifier::reject_recursive_types(Oid)]
pub struct ExTrackMap<Oid>(gleisbau::track::TrackMap<Oid>) where Oid: Clone + Eq;

/// `gleisbau::track::Builder`, which adds commits to tracks.
#[verifier::external_type_specification]
#[verifier::external_body]
#[verifier::reject_recursive_types(Oid)]
pub struct ExBuilder<Oid: Clone + Eq + Hash>(gleisbau::track::Builder<Oid>);

/// `gleisbau::layout::TrackLayout`, the columns of the tracks of a range of commits.
#[verifier::external_type_specification]
#[verifier::external_body]
pub struct ExTrackLayout(gleisbau::layout::TrackLayout);

/// `gleisbau::settings::Settings`, how to draw a graph.
#[verifier::external_type_specification]
#[verifier::external_body]
pub struct ExSettings(gleisbau::settings::Settings);

/// The rules by which branches are named, ordered and coloured.
#[derive(Clone, Copy, Debug, PartialEq, Eq, Structural)]
pub enum BranchModel {
    /// No branch has a role.
    Free,
    /// The branches of Git-Flow.
    GitFlow,
}

/// The characters that a graph is made of.
#[derive(Clone, Copy, Debug, PartialEq, Eq, Structural)]
pub enum GlyphSet {
    /// Thin lines.
    Thin,
    /// Thin lines with rounded corners.
    Round,
    /// Bold lines.
    Bold,
    /// Double lines.
    Double,
    /// Characters of ASCII.
    Ascii,
}

/// Which branches come first, from left to right.
#[derive(Clone, Copy, Debug, PartialEq, Eq, Structural)]
pub enum TrackOrder {
    /// The shortest.
    ShortestFirst,
    /// The longest.
    LongestFirst,
}

/// How the text beside a graph shows a commit.
#[derive(Clone, Copy, Debug, PartialEq, Eq, Structural)]
pub enum TextFormat {
    /// On one line.
    OneLine,
    /// Without the date.
    Short,
    /// With the date.
    Medium,
    /// With everything.
    Full,
}

/// How to draw a graph.
#[derive(Clone, Copy, Debug, PartialEq, Eq, Structural)]
pub struct GraphOptions {
    /// Reverse the order of commits.
    pub reverse_commit_order: bool,
    /// Debug printing and drawing.
    pub debug: bool,
    /// Compact graph.
    pub compact: bool,
    /// Coloured graph.
    pub colored: bool,
    /// Whether remote branches are drawn.
    pub include_remote: bool,
    /// How the text beside the graph shows a commit.
    pub format: TextFormat,
    /// Width at which that text is wrapped, if it is.
    pub wrapping: Option<usize>,
    /// The characters of the graph.
    pub characters: GlyphSet,
    /// Which branches come first.
    pub branch_order: TrackOrder,
    /// Of branches that are equally long, those that end last come first.
    pub ends_last_first: bool,
    /// The rules for branches.
    pub branches: BranchModel,
    /// Whether names of merged branches are read from messages by the usual patterns.
    pub default_merge_patterns: bool,
}

/// A commit on a track.
pub struct TrackCommit {
    /// The commit.
    pub id: CommitId,
    /// Its message.
    pub message: Seq<char>,
    /// Its parents.
    pub parents: Seq<CommitId>,
}

/// Whether every commit occurs once, and before its parents.
pub open spec fn children_first(commits: Seq<TrackCommit>) -> bool {
    &&& forall|i: int, j: int|
        #![trigger commits[i], commits[j]]
        0 <= i < j < commits.len() ==> commits[i].id != commits[j].id
    &&& forall|i: int, j: int|
        #![trigger commits[i], commits[j]]
        0 <= i <= j < commits.len() ==> !commits[j].parents.contains(commits[i].id)
}

/// Number of commits in a range.
pub open spec fn range_len(start: usize, end: usize) -> int {
    if start <= end {
        end - start
    } else {
        0
    }
}

/// Number of positions in a range at which there is a commit, where there are `count` commits.
pub open spec fn known_len(count: nat, start: usize, end: usize) -> int {
    if count <= start || end <= start {
        0
    } else if count <= end {
        count - start
    } else {
        end - start
    }
}

/// Number of all parents of `commits`.
pub open spec fn parent_count(commits: Seq<TrackCommit>) -> nat
    decreases commits.len(),
{
    if commits.len() == 0 {
        0
    } else {
        parent_count(commits.drop_last()) + commits.last().parents.len()
    }
}

/// Most rows that a range takes: one for each position, and one for each way to a parent.
pub open spec fn most_rows(commits: Seq<TrackCommit>, start: usize, end: usize) -> int {
    let known = known_len(commits.len(), start, end);
    if known == 0 {
        range_len(start, end)
    } else {
        range_len(start, end) + parent_count(commits.subrange(start as int, start + known))
    }
}

/// Whether the commits from `start` to `end` can be drawn: indices and rows can be counted, and a
/// drawing of two columns for each commit can be held.
pub open spec fn drawable(commits: Seq<TrackCommit>, start: usize, end: usize) -> bool {
    let columns = 2 * known_len(commits.len(), start, end) + 1;
    &&& commits.len() <= TRACK_LIMIT
    &&& end + most_rows(commits, start, end) <= usize::MAX
    &&& CELL_BYTES * columns * most_rows(commits, start, end) <= isize::MAX
}

/// Sections of up to a thousand commits that have up to three parents each can be drawn on every
/// machine.
pub proof fn law_ordinary_sections_drawable(commits: Seq<TrackCommit>, start: usize, end: usize)
    requires
        commits.len() <= TRACK_LIMIT,
        end <= usize::MAX - 4000,
        end <= start + 1000,
        forall|i: int| 0 <= i < commits.len() ==> (#[trigger] commits[i]).parents.len() <= 3,
    ensures
        drawable(commits, start, end),
{
    let known = known_len(commits.len(), start, end);
    let columns = 2 * known + 1;
    let rows = most_rows(commits, start, end);
    if known > 0 {
        let part = commits.subrange(start as int, start + known);
        assert forall|i: int| 0 <= i < part.len() implies (#[trigger] part[i]).parents.len()
            <= 3 by {
            assert(part[i] == commits[start + i]);
        }
        lemma_parent_count(part);
    }
    assert(CELL_BYTES * columns * rows <= 0x7fff_ffff) by (nonlinear_arith)
        requires
            CELL_BYTES == 128,
            1 <= columns <= 2001,
            0 <= rows <= 4000,
    ;
}

proof fn lemma_parent_count(commits: Seq<TrackCommit>)
    requires
        forall|i: int| 0 <= i < commits.len() ==> (#[trigger] commits[i]).parents.len() <= 3,
    ensures
        parent_count(commits) <= 3 * commits.len(),
    decreases commits.len(),
{
    if commits.len() > 0 {
        let rest = commits.drop_last();
        assert forall|i: int| 0 <= i < rest.len() implies (#[trigger] rest[i]).parents.len()
            <= 3 by {
            assert(rest[i] == commits[i]);
        }
        lemma_parent_count(rest);
        assert(commits.last() == commits[commits.len() - 1]);
    }
}

/// A drawn graph.
pub struct GraphLines {
    /// The graph as lines of text.
    pub graph_lines: Vec<String>,
    /// For each commit of the range that was drawn, the line on which it stands.
    pub commit2line: Vec<usize>,
}

impl View for GraphLines {
    type V = (Seq<Seq<char>>, Seq<usize>);

    open spec fn view(&self) -> (Seq<Seq<char>>, Seq<usize>) {
        (texts(self.graph_lines@), self.commit2line@)
    }
}

/// Whether lines are those of a range of `count` positions that has a commit at the first `known`.
/// Every commit has a line of its own, below that of the commit before it, and lines between them
/// that connect tracks. A position without a commit has one line, but counts for two.
pub open spec fn draws(lines: GraphLines, count: int, known: int) -> bool {
    let rows = lines.commit2line@;
    let height = lines.graph_lines@.len();
    &&& rows.len() == count
    &&& count > 0 ==> rows[0] == 0
    &&& forall|i: int, j: int|
        #![trigger rows[i], rows[j]]
        0 <= i < j < count ==> rows[i] + (j - i) <= rows[j]
    &&& forall|i: int| 0 <= i < known ==> (#[trigger] rows[i]) + (count - i) <= height
    &&& forall|i: int|
        known <= i < count ==> #[trigger] rows[i] == rows[known] + 2 * (i - known)
    &&& known < count ==> height == rows[known] + (count - known)
    &&& count == 0 ==> height == 0
}

/// The symbol of a commit among the rounded characters: a circle for a merge, else a dot.
pub open spec fn commit_symbol(commit: TrackCommit) -> char {
    if commit.parents.len() > 1 {
        '\u{25cb}'
    } else {
        '\u{25cf}'
    }
}

/// The symbols of commits on a line.
pub open spec fn symbols_on(line: Seq<char>) -> Seq<char> {
    line.filter(|c: char| c == '\u{25cb}' || c == '\u{25cf}')
}

/// Whether `row` is that of one of the first `known` commits.
pub open spec fn is_commit_row(lines: GraphLines, known: int, row: int) -> bool {
    exists|i: int| 0 <= i < known && #[trigger] lines.commit2line@[i] == row
}

/// Whether every commit, of which the first is at `start`, has its symbol on its line, and no other
/// line has one.
pub open spec fn shows_commits(
    lines: GraphLines,
    commits: Seq<TrackCommit>,
    start: int,
    known: int,
) -> bool {
    &&& forall|i: int|
        0 <= i < known ==> symbols_on(lines.graph_lines@[#[trigger] lines.commit2line@[i] as int]@)
            == seq![commit_symbol(commits[start + i])]
    &&& forall|row: int|
        0 <= row < lines.graph_lines@.len() && !is_commit_row(lines, known, row) ==> symbols_on(
            #[trigger] lines.graph_lines@[row]@,
        ).len() == 0
}

/// The number of an object id, as its first sixteen bytes and its last four.
pub uninterp spec fn oid_id(oid: Oid) -> (u128, u32);

/// The commits that a builder has been given, in order.
pub uninterp spec fn added_commits(builder: Builder<Oid>) -> Seq<TrackCommit>;

/// Whether `builder` adds to the tracks in `cell`, and alone has done so.
pub uninterp spec fn fills(builder: Builder<Oid>, cell: RefCell<TrackMap<Oid>>) -> bool;

/// The options from which settings were made, if they were.
pub uninterp spec fn options_of(settings: Settings) -> Option<GraphOptions>;

/// The commits on the tracks, and the start and the end of the range, of a layout.
pub uninterp spec fn layout_source(layout: TrackLayout) -> (Seq<TrackCommit>, usize, usize);

/// The options of the settings with which a layout was made.
pub uninterp spec fn layout_options(layout: TrackLayout) -> GraphOptions;

/// The lines that `print_graph_terminal` of `gleisbau` draws of a range of commits, and the lines
/// on which the commits stand.
pub uninterp spec fn printed_graph(
    options: GraphOptions,
    commits: Seq<TrackCommit>,
    start: usize,
    end: usize,
) -> (Seq<Seq<char>>, Seq<usize>);

/// The commits with ids given as object ids.
pub open spec fn track_commit(id: Oid, message: Seq<char>, parents: Seq<Oid>) -> TrackCommit {
    TrackCommit {
        id: commit_of(id),
        message,
        parents: parents.map_values(|parent: Oid| commit_of(parent)),
    }
}

/// The commit that an object id stands for.
pub open spec fn commit_of(oid: Oid) -> CommitId {
    CommitId { high: oid_id(oid).0, low: oid_id(oid).1 }
}

/// `Oid::from_bytes` of `git2` makes the object id with the given twenty bytes.
#[verifier::external_body]
pub(crate) fn oid_new(high: u128, low: u32) -> (r: Oid)
    ensures
        oid_id(r) == (high, low),
{
    let bytes = [&high.to_be_bytes()[..], &low.to_be_bytes()[..]].concat();
    Oid::from_bytes(&bytes).unwrap()
}

/// `Settings` of `gleisbau`, for a graph of rounded characters whose shortest branches come first
/// and have no roles, with its default merge patterns, and text on one line that is not wrapped.
#[verifier::external_body]
pub(crate) fn settings_new(options: &GraphOptions) -> (r: Settings)
    requires
        options.format is OneLine,
        options.wrapping is None,
        options.characters is Round,
        options.branch_order is ShortestFirst,
        options.branches is Free,
        options.default_merge_patterns,
    ensures
        options_of(r) == Some(*options),
{
    Settings {
        reverse_commit_order: options.reverse_commit_order,
        debug: options.debug,
        compact: options.compact,
        colored: options.colored,
        include_remote: options.include_remote,
        format: CommitFormat::OneLine,
        wrapping: None,
        characters: Characters::round(),
        branch_order: BranchOrder::ShortestFirst(options.ends_last_first),
        branches: BranchSettings::from(BranchSettingsDef::none()).unwrap(),
        merge_patterns: MergePatterns::default(),
    }
}

/// `TrackMap::new` and `Builder::new` of `gleisbau` make tracks without commits, in a cell to share
/// them, and the builder that adds to them.
#[verifier::external_body]
pub(crate) fn builder_new() -> (r: (Rc<RefCell<TrackMap<Oid>>>, Builder<Oid>))
    ensures
        fills(r.1, *r.0),
        added_commits(r.1) == Seq::<TrackCommit>::empty(),
{
    let cell = Rc::new(RefCell::new(TrackMap::new()));
    let builder = Builder::new(cell.clone());
    (cell, builder)
}

/// `Builder::add_commit` of `gleisbau` adds a commit to the tracks. A commit has to be added
/// before its parents.
#[verifier::external_body]
pub(crate) fn builder_add_commit(
    builder: &mut Builder<Oid>,
    id: Oid,
    message: String,
    parents: Vec<Oid>,
)
    requires
        children_first(added_commits(*old(builder)).push(track_commit(id, message@, parents@))),
    ensures
        added_commits(*final(builder)) == added_commits(*old(builder)).push(
            track_commit(id, message@, parents@),
        ),
        forall|cell: RefCell<TrackMap<Oid>>| #[trigger]
            fills(*final(builder), cell) == fills(*old(builder), cell),
{
    builder.add_commit(id, message, parents);
}

/// `layout_track_range` of `gleisbau` gives the tracks of a range of commits their columns. It
/// fails only where a commit has no track, or a colour no number, which cannot be here.
#[verifier::external_body]
pub(crate) fn layout_new(
    cell: &Rc<RefCell<TrackMap<Oid>>>,
    builder: &Builder<Oid>,
    start: usize,
    end: usize,
    settings: &Settings,
) -> (r: Result<TrackLayout, String>)
    requires
        fills(*builder, **cell),
        children_first(added_commits(*builder)),
        drawable(added_commits(*builder), start, end),
        options_of(*settings) is Some,
    ensures
        r is Ok,
        layout_source(r->Ok_0) == (added_commits(*builder), start, end),
        layout_options(r->Ok_0) == options_of(*settings)->0,
{
    let _ = builder;
    layout_track_range(&cell.borrow(), start..end, settings)
}

/// `TrackLayout::commit_count` of `gleisbau` gives the number of commits of a layout's range.
#[verifier::external_body]
pub(crate) fn layout_commit_count(layout: &TrackLayout) -> (r: usize)
    ensures
        r == range_len(layout_source(*layout).1, layout_source(*layout).2),
{
    layout.commit_count()
}

/// `print_graph_terminal` of `gleisbau` draws a layout, with one line of text for each commit. What
/// it draws depends on the options, the commits and the range alone: tracks are ordered by their
/// length and their first row, which no two of them share. Whether colours come out depends on a
/// switch of the whole process too, so of a graph in colours the lines themselves are not named.
/// The rows of the commits go down from the first, and each has the symbol of its commit, unless
/// the lines are reversed.
#[verifier::external_body]
pub(crate) fn print_graph(
    settings: &Settings,
    cell: &Rc<RefCell<TrackMap<Oid>>>,
    builder: &Builder<Oid>,
    layout: &TrackLayout,
    text_height: &Vec<usize>,
) -> (r: GraphLines)
    requires
        fills(*builder, **cell),
        children_first(added_commits(*builder)),
        layout_source(*layout).0 == added_commits(*builder),
        drawable(added_commits(*builder), layout_source(*layout).1, layout_source(*layout).2),
        options_of(*settings) is Some,
        text_height@ == Seq::new(text_height@.len(), |i: int| 1usize),
    ensures
        !options_of(*settings)->0.colored && layout_options(*layout) == options_of(*settings)->0
            ==> r@ == printed_graph(
            options_of(*settings)->0,
            added_commits(*builder),
            layout_source(*layout).1,
            layout_source(*layout).2,
        ),
        added_commits(*builder).len() == 0 ==> draws(r, 0, 0),
        added_commits(*builder).len() > 0 ==> draws(
            r,
            range_len(layout_source(*layout).1, layout_source(*layout).2),
            known_len(
                added_commits(*builder).len(),
                layout_source(*layout).1,
                layout_source(*layout).2,
            ),
        ),
        options_of(*settings)->0.characters is Round && !options_of(
            *settings,
        )->0.reverse_commit_order ==> shows_commits(
            r,
            added_commits(*builder),
            layout_source(*layout).1 as int,
            known_len(
                added_commits(*builder).len(),
                layout_source(*layout).1,
                layout_source(*layout).2,
            ),
        ),
{
    let _ = builder;
    let lines = print_graph_terminal(settings, &cell.borrow(), layout, text_height);
    GraphLines { graph_lines: lines.graph_lines, commit2line: lines.commit2line }
}

} // verus!
