//! The branch graph of the commits, drawn a section at a time.

use std::cell::RefCell;
use std::ops::Range;
use std::rc::Rc;

use git2::Oid;
use gleisbau::layout::TrackLayout;
use gleisbau::settings::Settings;
use gleisbau::track::{Builder, TrackMap};
use vstd::prelude::*;

use crate::commit_id::CommitId;
use crate::log_items::CommitInfo;
use crate::text::texts;
use crate::tracks::{
    added_commits, builder_add_commit, builder_new, children_first, commit_of, drawable, draws,
    fills, known_len, layout_commit_count, layout_new, layout_source, oid_new, options_of,
    print_graph, printed_graph, range_len, settings_new, shows_commits, track_commit, BranchModel,
    GlyphSet, GraphLines, GraphOptions, TextFormat, TrackCommit, TrackOrder,
};

verus! {

/// What is shown where no line was drawn.
pub const NO_GRAPH_DATA: &'static str = "%% no graph data %%";

/// How the graph of a repository is drawn: in full width and without colours, and no branch has a
/// role.
pub open spec fn repository_options() -> GraphOptions {
    GraphOptions {
        reverse_commit_order: false,
        debug: false,
        compact: false,
        colored: false,
        include_remote: false,
        format: TextFormat::OneLine,
        wrapping: None,
        characters: GlyphSet::Round,
        branch_order: TrackOrder::ShortestFirst,
        ends_last_first: true,
        branches: BranchModel::Free,
        default_merge_patterns: true,
    }
}

/// How the graph of a repository is drawn.
pub fn extract_settings() -> (r: GraphOptions)
    ensures
        r == repository_options(),
{
    GraphOptions {
        reverse_commit_order: false,
        debug: false,
        compact: false,
        colored: false,
        include_remote: false,
        format: TextFormat::OneLine,
        wrapping: None,
        characters: GlyphSet::Round,
        branch_order: TrackOrder::ShortestFirst,
        ends_last_first: true,
        branches: BranchModel::Free,
        default_merge_patterns: true,
    }
}

/// How the graph in the list of commits is drawn: compact and in colours, with the branches of
/// Git-Flow.
pub fn default_graph_settings() -> (r: GraphOptions)
    ensures
        r == (GraphOptions {
            compact: true,
            colored: true,
            branches: BranchModel::GitFlow,
            ..repository_options()
        }),
{
    GraphOptions {
        compact: true,
        colored: true,
        branches: BranchModel::GitFlow,
        ..extract_settings()
    }
}

/// The commits that `infos` tell of, for tracks.
pub open spec fn track_commits(infos: Seq<CommitInfo>) -> Seq<TrackCommit> {
    infos.map_values(
        |info: CommitInfo|
            TrackCommit {
                id: info.id,
                message: info.message@,
                parents: info.parents@,
            },
    )
}

/// The object ids of commits.
fn oids(ids: &Vec<CommitId>) -> (r: Vec<Oid>)
    ensures
        r@.map_values(|oid: Oid| commit_of(oid)) == ids@,
{
    let mut oids: Vec<Oid> = Vec::new();
    for i in 0..ids.len()
        invariant
            oids@.len() == i,
            forall|k: int| 0 <= k < i ==> commit_of(#[trigger] oids@[k]) == ids@[k],
    {
        oids.push(oid_new(ids[i].high, ids[i].low));
    }
    assert(oids@.map_values(|oid: Oid| commit_of(oid)) =~= ids@);
    oids
}

impl GraphLines {
    /// The line that stands at `row`, if one does.
    pub open spec fn line(self, row: int) -> Seq<char> {
        if 0 <= row < self.graph_lines@.len() {
            self.graph_lines@[row]@
        } else {
            NO_GRAPH_DATA@
        }
    }

    /// The row on which a commit stands, or the first if it was not drawn.
    pub open spec fn row(self, layout_commit: int) -> int {
        if 0 <= layout_commit < self.commit2line@.len() {
            self.commit2line@[layout_commit] as int
        } else {
            0
        }
    }

    /// Number of rows of a commit: those from its own up to that of the next commit, or to the
    /// end.
    pub open spec fn height(self, layout_commit: int) -> int {
        if 0 <= layout_commit < self.commit2line@.len() - 1 {
            self.commit2line@[layout_commit + 1] - self.commit2line@[layout_commit]
        } else if layout_commit == self.commit2line@.len() - 1 {
            self.graph_lines@.len() - self.commit2line@[layout_commit]
        } else {
            0
        }
    }

    /// Number of rows of the first `count` commits.
    pub open spec fn total_height(self, count: nat) -> int
        decreases count,
    {
        if count == 0 {
            0
        } else {
            self.total_height((count - 1) as nat) + self.height(count - 1)
        }
    }

    /// Whether the rows of the commits go down, so that every commit has a height.
    pub open spec fn ordered(self) -> bool {
        let rows = self.commit2line@;
        &&& forall|i: int, j: int|
            #![trigger rows[i], rows[j]]
            0 <= i <= j < rows.len() ==> rows[i] <= rows[j]
    }

    /// First row to show for `layout_commit` to stand on one of `height` rows.
    pub fn scroll_to(&self, layout_commit: usize, height: usize) -> (r: usize)
        ensures
            r == scrolled(self.row(layout_commit as int), height),
    {
        let row: usize = if layout_commit < self.commit2line.len() {
            self.commit2line[layout_commit]
        } else {
            0
        };
        row.saturating_add(1).saturating_sub(height)
    }

    /// The line at `row`.
    pub fn get_graph_line(&self, row: usize) -> (r: String)
        ensures
            r@ == self.line(row as int),
            row < self.graph_lines@.len() ==> r@ == self.graph_lines@[row as int]@,
            row >= self.graph_lines@.len() ==> r@ == NO_GRAPH_DATA@,
    {
        if row < self.graph_lines.len() {
            self.graph_lines[row].clone()
        } else {
            NO_GRAPH_DATA.to_string()
        }
    }

    /// Number of rows of a commit.
    pub fn commit_height(&self, layout_commit: usize) -> (r: usize)
        requires
            self.ordered(),
            layout_commit == self.commit2line@.len() - 1 ==> self.commit2line@.last()
                <= self.graph_lines@.len(),
        ensures
            r == self.height(layout_commit as int),
            layout_commit + 1 < self.commit2line@.len() ==> self.commit2line@[layout_commit as int]
                + r == self.commit2line@[layout_commit + 1],
            layout_commit + 1 == self.commit2line@.len()
                ==> self.commit2line@[layout_commit as int] + r == self.graph_lines@.len(),
            layout_commit >= self.commit2line@.len() ==> r == 0,
    {
        let count: usize = self.commit2line.len();
        if layout_commit >= count {
            return 0;
        }
        if layout_commit + 1 < count {
            self.commit2line[layout_commit + 1] - self.commit2line[layout_commit]
        } else {
            self.graph_lines.len() - self.commit2line[layout_commit]
        }
    }
}

/// First row to show for `row` to be one of `height` rows.
pub open spec fn scrolled(row: int, height: usize) -> int {
    let below = if row + 1 <= usize::MAX { row + 1 } else { usize::MAX as int };
    if below <= height {
        0
    } else {
        below - height
    }
}

/// The branch graph of a repository.
pub struct GraphCache {
    /// How the graph is drawn.
    settings: Rc<Settings>,
    /// Topology.
    topo: Rc<RefCell<TrackMap<Oid>>>,
    /// Geometry.
    geo: Option<TrackLayout>,
    /// Document.
    doc: Option<GraphLines>,
    /// First row of the document to show, so that the selection is visible.
    row_scroll: usize,
    /// Adds commits to the topology.
    builder: Builder<Oid>,
}

impl GraphCache {
    /// The commits that have been added.
    pub closed spec fn commits(self) -> Seq<TrackCommit> {
        added_commits(self.builder)
    }

    /// The options by which the graph is drawn.
    pub closed spec fn options(self) -> GraphOptions {
        options_of(*self.settings)->0
    }

    /// What was drawn last.
    pub closed spec fn drawn(self) -> Option<GraphLines> {
        self.doc
    }

    /// First row to show.
    pub closed spec fn scroll(self) -> usize {
        self.row_scroll
    }

    /// Whether the parts of the graph belong together.
    pub closed spec fn wf(self) -> bool {
        &&& fills(self.builder, *self.topo)
        &&& children_first(self.commits())
        &&& options_of(*self.settings) is Some
        &&& self.doc matches Some(lines) ==> lines.ordered()
    }

    /// The commits and the range that were laid out last.
    pub closed spec fn laid_out(self) -> Option<(Seq<TrackCommit>, usize, usize)> {
        match self.geo {
            Some(layout) => Some(layout_source(layout)),
            None => None,
        }
    }

    /// Whether `after` has the commits of `infos` behind its own, and is else the same graph.
    pub open spec fn adds(self, infos: Seq<CommitInfo>, after: GraphCache) -> bool {
        &&& after.commits() == self.commits() + track_commits(infos)
        &&& after.options() == self.options()
        &&& after.laid_out() == self.laid_out()
        &&& after.drawn() == self.drawn()
        &&& after.scroll() == self.scroll()
    }

    /// Whether `after` is the graph with the lines `lines` of commits from `first` on, scrolled so
    /// that the selection is on one of `height` rows.
    pub open spec fn takes_lines(
        self,
        lines: GraphLines,
        first: usize,
        height: int,
        selection: usize,
        after: GraphCache,
    ) -> bool {
        let selected = if selection < first {
            0
        } else {
            selection - first
        };
        &&& after.commits() == self.commits()
        &&& after.options() == self.options()
        &&& after.drawn() == Some(lines)
        &&& after.scroll() == scrolled(lines.row(selected), height as usize)
    }

    /// Whether `after` is the graph with the commits from `start` to `end` drawn. The lines are
    /// those that the options, the commits and the range give, where they are not in colours. Each
    /// commit has a line of its own with its symbol.
    pub open spec fn lays_out(
        self,
        start: usize,
        end: usize,
        selection: usize,
        after: GraphCache,
    ) -> bool {
        let known = known_len(self.commits().len(), start, end);
        let lines = after.drawn()->0;
        &&& after.drawn() is Some
        &&& self.takes_lines(lines, start, range_len(start, end), selection, after)
        &&& after.laid_out() == Some((self.commits(), start, end))
        &&& !self.options().colored ==> lines@ == printed_graph(
            self.options(),
            self.commits(),
            start,
            end,
        )
        &&& if self.commits().len() == 0 {
            draws(lines, 0, 0)
        } else {
            draws(lines, range_len(start, end), known)
        }
        &&& self.options().characters is Round && !self.options().reverse_commit_order
            ==> shows_commits(lines, self.commits(), start as int, known)
    }

    /// A graph without commits, of which nothing is drawn.
    pub fn new() -> (r: GraphCache)
        ensures
            r.wf(),
            r.commits() == Seq::<TrackCommit>::empty(),
            r.options() == repository_options(),
            r.laid_out() is None,
            r.drawn() is None,
            r.scroll() == 0,
    {
        let settings = Rc::new(settings_new(&extract_settings()));
        let (topo, builder) = builder_new();
        GraphCache { settings, topo, geo: None, doc: None, row_scroll: 0, builder }
    }

    /// Expands the branch topology. Commits are added before their parents.
    pub fn add_commits(&mut self, commits: &Vec<CommitInfo>)
        requires
            old(self).wf(),
            children_first(old(self).commits() + track_commits(commits@)),
        ensures
            final(self).wf(),
            old(self).adds(commits@, *final(self)),
    {
        let ghost before = self.commits();
        let ghost more = track_commits(commits@);
        assert(before + more.take(0) =~= before);
        for i in 0..commits.len()
            invariant
                before == old(self).commits(),
                more == track_commits(commits@),
                children_first(before + more),
                self.wf(),
                self.commits() == before + more.take(i as int),
                self.options() == old(self).options(),
                self.laid_out() == old(self).laid_out(),
                self.drawn() == old(self).drawn(),
                self.scroll() == old(self).scroll(),
        {
            let c = &commits[i];
            let id = oid_new(c.id.high, c.id.low);
            let parents = oids(&c.parents);
            let message = c.message.clone();
            proof {
                let all = before + more;
                let grown = before + more.take(i + 1);
                assert(track_commit(id, message@, parents@) == more[i as int]);
                assert(grown =~= self.commits().push(more[i as int]));
                assert(grown =~= all.take(grown.len() as int));
                lemma_children_first_prefix(all, grown.len() as int);
            }
            builder_add_commit(&mut self.builder, id, message, parents);
        }
        assert(more.take(commits@.len() as int) =~= more);
    }

    /// Lays out and draws a section of the commits, and scrolls to the selection.
    pub fn compute_layout(&mut self, commit_range: Range<usize>, selection: usize)
        requires
            old(self).wf(),
            drawable(old(self).commits(), commit_range.start, commit_range.end),
        ensures
            final(self).wf(),
            old(self).lays_out(commit_range.start, commit_range.end, selection, *final(self)),
    {
        let first_commit: usize = commit_range.start;
        let end: usize = commit_range.end;
        let height_in_lines: usize = end.saturating_sub(first_commit);
        let laid_out = layout_new(&self.topo, &self.builder, first_commit, end, &self.settings);
        if let Ok(track_layout) = laid_out {
            // Every commit has one row of text.
            let text_height = ones(layout_commit_count(&track_layout));
            let lines = print_graph(
                &self.settings,
                &self.topo,
                &self.builder,
                &track_layout,
                &text_height,
            );
            self.set_document(lines, first_commit, height_in_lines, selection);
            self.geo = Some(track_layout);
        }
    }

    /// Takes in lines that were drawn, of commits from `first_commit` on, and scrolls so that the
    /// selection is on one of `height_in_lines` rows. A commit may take more than one row.
    pub fn set_document(
        &mut self,
        lines: GraphLines,
        first_commit: usize,
        height_in_lines: usize,
        selection: usize,
    )
        requires
            old(self).wf(),
            lines.ordered(),
        ensures
            final(self).wf(),
            old(self).takes_lines(
                lines,
                first_commit,
                height_in_lines as int,
                selection,
                *final(self),
            ),
            final(self).laid_out() == old(self).laid_out(),
    {
        let select_layout_commit: usize = selection.saturating_sub(first_commit);
        self.row_scroll = lines.scroll_to(select_layout_commit, height_in_lines);
        self.doc = Some(lines);
    }

    /// The lines that were drawn last.
    pub fn document(&self) -> (r: Option<&GraphLines>)
        ensures
            r is Some <==> self.drawn() is Some,
            r matches Some(lines) ==> *lines == self.drawn()->0,
            self.wf() ==> (r matches Some(lines) ==> lines.ordered()),
    {
        self.doc.as_ref()
    }

    /// The line of the graph at a row.
    pub fn get_graph_line(&self, row: usize) -> (r: String)
        ensures
            r@ == (match self.drawn() {
                Some(lines) => lines.line(row as int),
                None => NO_GRAPH_DATA@,
            }),
            self.drawn() matches Some(lines) ==> row < lines.graph_lines@.len() ==> r@
                == lines.graph_lines@[row as int]@,
    {
        match &self.doc {
            Some(lines) => lines.get_graph_line(row),
            None => NO_GRAPH_DATA.to_string(),
        }
    }

    /// First line to show for the selection to be visible.
    pub fn row_scroll(&self) -> (r: usize)
        ensures
            r == self.scroll(),
    {
        self.row_scroll
    }

    /// Number of rows of a commit in the layout.
    pub fn layout_commit_height(&self, layout_commit: usize) -> (r: usize)
        requires
            self.wf(),
            self.drawn() matches Some(lines) ==> layout_commit == lines.commit2line@.len() - 1
                ==> lines.commit2line@.last() <= lines.graph_lines@.len(),
        ensures
            r == (match self.drawn() {
                Some(lines) => lines.height(layout_commit as int),
                None => 0,
            }),
    {
        match &self.doc {
            Some(lines) => lines.commit_height(layout_commit),
            None => 0,
        }
    }
}

/// As many ones as `count` says.
fn ones(count: usize) -> (r: Vec<usize>)
    ensures
        r@ == Seq::new(count as nat, |i: int| 1usize),
{
    let mut ones: Vec<usize> = Vec::new();
    for i in 0..count
        invariant
            ones@ == Seq::new(i as nat, |i: int| 1usize),
    {
        ones.push(1);
        assert(ones@ =~= Seq::new((i + 1) as nat, |i: int| 1usize));
    }
    ones
}

proof fn lemma_children_first_prefix(commits: Seq<TrackCommit>, count: int)
    requires
        children_first(commits),
        0 <= count <= commits.len(),
    ensures
        children_first(commits.take(count)),
{
    let part = commits.take(count);
    assert forall|i: int, j: int|
        #![trigger part[i], part[j]]
        0 <= i < j < part.len() implies part[i].id != part[j].id by {
        assert(part[i] == commits[i] && part[j] == commits[j]);
    }
    assert forall|i: int, j: int|
        #![trigger part[i], part[j]]
        0 <= i <= j < part.len() implies !part[j].parents.contains(part[i].id) by {
        assert(part[i] == commits[i] && part[j] == commits[j]);
    }
}

/// Commits that are added in two parts make the graph that they make when they are added at once.
/// No commits change nothing.
pub proof fn law_added_in_parts(
    before: GraphCache,
    first: Seq<CommitInfo>,
    second: Seq<CommitInfo>,
    between: GraphCache,
    after: GraphCache,
    at_once: GraphCache,
)
    requires
        before.adds(first, between),
        between.adds(second, after),
        before.adds(first + second, at_once),
    ensures
        after.commits() == at_once.commits(),
        after.options() == at_once.options(),
        after.laid_out() == at_once.laid_out(),
        after.drawn() == at_once.drawn(),
        after.scroll() == at_once.scroll(),
        first.len() == 0 ==> between.commits() == before.commits(),
{
    assert(track_commits(first + second) =~= track_commits(first) + track_commits(second));
    assert(before.commits() + track_commits(first) + track_commits(second) =~= before.commits()
        + track_commits(first + second));
    if first.len() == 0 {
        assert(before.commits() + track_commits(first) =~= before.commits());
    }
}

/// The same commits, added in whatever parts, draw the same graph.
pub proof fn law_same_commits_same_graph(
    a: GraphCache,
    b: GraphCache,
    start: usize,
    end: usize,
    selection: usize,
    drawn_a: GraphCache,
    drawn_b: GraphCache,
)
    requires
        a.commits() == b.commits(),
        a.options() == b.options(),
        !a.options().colored,
        a.lays_out(start, end, selection, drawn_a),
        b.lays_out(start, end, selection, drawn_b),
    ensures
        drawn_a.drawn()->0@ == drawn_b.drawn()->0@,
        drawn_a.scroll() == drawn_b.scroll(),
{
}

/// A row to which a graph is scrolled is one of those that are shown.
pub proof fn law_selection_row_visible(row: usize, height: usize)
    requires
        0 < height,
        row < usize::MAX,
    ensures
        scrolled(row as int, height) <= row < scrolled(row as int, height) + height,
{
}

/// The commits of a graph share out its lines: each stands where those before it end, and together
/// they take all lines.
pub proof fn law_heights_cover_lines(lines: GraphLines, count: int)
    requires
        draws(lines, count, count),
        0 < count,
    ensures
        forall|i: int|
            0 <= i < count ==> #[trigger] lines.total_height(i as nat) == lines.row(i),
        forall|i: int| 0 <= i < count ==> 1 <= #[trigger] lines.height(i),
        lines.total_height(count as nat) == lines.graph_lines@.len(),
{
    assert forall|i: int| 0 <= i < count implies #[trigger] lines.total_height(i as nat)
        == lines.row(i) by {
        lemma_total_height(lines, count, i as nat);
    }
    lemma_total_height(lines, count, (count - 1) as nat);
    assert(lines.total_height(count as nat) == lines.total_height((count - 1) as nat)
        + lines.height(count - 1));
}

proof fn lemma_total_height(lines: GraphLines, count: int, i: nat)
    requires
        draws(lines, count, count),
        i < count,
    ensures
        lines.total_height(i) == lines.row(i as int),
    decreases i,
{
    if i > 0 {
        lemma_total_height(lines, count, (i - 1) as nat);
    }
}

/// Every row below the number of drawn lines has the line that was drawn there, so that the rows in
/// their order are the lines. Any other row has a note.
pub proof fn law_rows_are_the_lines(lines: GraphLines, row: int)
    ensures
        0 <= row < lines.graph_lines@.len() ==> lines.line(row) == lines.graph_lines@[row]@,
        Seq::new(lines.graph_lines@.len(), |i: int| lines.line(i)) == texts(lines.graph_lines@),
        row >= lines.graph_lines@.len() ==> lines.line(row) == "%% no graph data %%"@,
{
    assert(Seq::new(lines.graph_lines@.len(), |i: int| lines.line(i)) =~= texts(
        lines.graph_lines@,
    ));
}

/// The rows of a commit are those from its own row up to the row of the next commit, or up to the
/// end of the lines for the last commit.
pub proof fn law_commit_takes_rows(lines: GraphLines, layout_commit: int)
    requires
        0 <= layout_commit < lines.commit2line@.len(),
    ensures
        lines.row(layout_commit) == lines.commit2line@[layout_commit],
        lines.row(layout_commit) + lines.height(layout_commit) == if layout_commit + 1
            < lines.commit2line@.len() {
            lines.commit2line@[layout_commit + 1] as int
        } else {
            lines.graph_lines@.len() as int
        },
        lines.height(lines.commit2line@.len() as int) == 0,
        lines.row(lines.commit2line@.len() as int) == 0,
{
}

/// A graph is scrolled no further than the selection needs: where anything above is hidden, the row
/// is the last that is shown.
pub proof fn law_scrolled_least(row: usize, height: usize)
    requires
        row < usize::MAX,
    ensures
        row < height ==> scrolled(row as int, height) == 0,
        row >= height ==> scrolled(row as int, height) + height == row + 1,
{
}

/// Lines that are taken in are the drawn ones, and the row of the selected commit is among those
/// that are shown.
pub proof fn law_selected_commit_is_shown(
    before: GraphCache,
    lines: GraphLines,
    first: usize,
    height: usize,
    selection: usize,
    after: GraphCache,
)
    requires
        before.takes_lines(lines, first, height as int, selection, after),
        first <= selection,
        selection - first < lines.commit2line@.len(),
        lines.commit2line@[selection - first] < usize::MAX,
        0 < height,
    ensures
        after.drawn() == Some(lines),
        after.commits() == before.commits(),
        after.options() == before.options(),
        after.scroll() <= lines.commit2line@[selection - first] < after.scroll() + height,
        after.scroll() == 0 || after.scroll() + height == lines.commit2line@[selection - first] + 1,
{
}

/// A section of the graph has the lines that its options, its commits and the section give, and is
/// scrolled to the selected commit.
pub proof fn law_section_is_drawn(
    before: GraphCache,
    start: usize,
    end: usize,
    selection: usize,
    after: GraphCache,
)
    requires
        before.lays_out(start, end, selection, after),
    ensures
        after.drawn() is Some,
        after.commits() == before.commits(),
        after.options() == before.options(),
        after.laid_out() == Some((before.commits(), start, end)),
        !before.options().colored ==> after.drawn()->0@ == printed_graph(
            before.options(),
            before.commits(),
            start,
            end,
        ),
        ({
            let rows = after.drawn()->0.commit2line@;
            start <= selection < end && selection - start < rows.len() && rows[selection - start]
                < usize::MAX ==> {
                &&& after.scroll() <= rows[selection - start] < after.scroll() + (end - start)
                &&& after.scroll() == 0 || after.scroll() + (end - start) == rows[selection - start]
                    + 1
            }
        }),
{
}

/// Added commits stand behind the others, in their order, each with its id, message and parents.
pub proof fn law_added_commits(before: GraphCache, infos: Seq<CommitInfo>, after: GraphCache)
    requires
        before.adds(infos, after),
    ensures
        after.commits().len() == before.commits().len() + infos.len(),
        forall|i: int|
            0 <= i < before.commits().len() ==> #[trigger] after.commits()[i]
                == before.commits()[i],
        forall|i: int|
            0 <= i < infos.len() ==> {
                let added = #[trigger] after.commits()[before.commits().len() + i];
                &&& added.id == infos[i].id
                &&& added.message == infos[i].message@
                &&& added.parents == infos[i].parents@
            },
        after.options() == before.options(),
        after.drawn() == before.drawn(),
        after.scroll() == before.scroll(),
{
}

/// A graph of a repository is in full width and without colours, with the youngest commit first,
/// and no branch has a role.
pub proof fn law_repository_options()
    ensures
        !repository_options().reverse_commit_order,
        !repository_options().debug,
        !repository_options().compact,
        !repository_options().colored,
        !repository_options().include_remote,
        repository_options().format is OneLine,
        repository_options().wrapping is None,
        repository_options().characters is Round,
        repository_options().branch_order is ShortestFirst,
        repository_options().ends_last_first,
        repository_options().branches is Free,
        repository_options().default_merge_patterns,
{
}

/// Reading the rows of a graph one by one gives the lines that were drawn, each at its row.
pub proof fn law_read_rows(
    cache: &GraphCache,
    lines: GraphLines,
    row: usize,
    line: String,
    shown: String,
)
    requires
        cache.drawn() == Some(lines),
        row < lines.graph_lines@.len(),
        call_ensures(GraphLines::get_graph_line, (&lines, row), line),
        call_ensures(GraphCache::get_graph_line, (cache, row), shown),
    ensures
        line@ == lines.graph_lines@[row as int]@,
        shown@ == lines.graph_lines@[row as int]@,
{
}

/// Lines that a graph takes in are read back row by row, and the row of the selected commit is one
/// of those that are shown.
pub proof fn law_document_is_read_back(
    before: GraphCache,
    lines: GraphLines,
    first: usize,
    height: usize,
    selection: usize,
    after: &GraphCache,
    row: usize,
    line: String,
    scroll: usize,
)
    requires
        exists|m: &mut GraphCache|
            *m == before && *final(m) == *after && call_requires(
                GraphCache::set_document,
                (m, lines, first, height, selection),
            ) && #[trigger] call_ensures(
                GraphCache::set_document,
                (m, lines, first, height, selection),
                (),
            ),
        call_ensures(GraphCache::get_graph_line, (after, row), line),
        call_ensures(GraphCache::row_scroll, (after,), scroll),
        row < lines.graph_lines@.len(),
        first <= selection,
        selection - first < lines.commit2line@.len(),
        lines.commit2line@[selection - first] < usize::MAX,
        0 < height,
    ensures
        line@ == lines.graph_lines@[row as int]@,
        scroll <= lines.commit2line@[selection - first] < scroll + height,
        after.commits() == before.commits(),
{
}

/// A section of a graph without colours that was laid out is read back row by row as it is drawn
/// for the commits that were added.
pub proof fn law_section_is_read_back(
    before: GraphCache,
    range: Range<usize>,
    selection: usize,
    after: &GraphCache,
    row: usize,
    line: String,
)
    requires
        !before.options().colored,
        exists|m: &mut GraphCache|
            *m == before && *final(m) == *after && call_requires(
                GraphCache::compute_layout,
                (m, range, selection),
            ) && #[trigger] call_ensures(GraphCache::compute_layout, (m, range, selection), ()),
        call_ensures(GraphCache::get_graph_line, (after, row), line),
    ensures
        ({
            let drawn = printed_graph(before.options(), before.commits(), range.start, range.end);
            row < drawn.0.len() ==> line@ == drawn.0[row as int]
        }),
        after.commits() == before.commits(),
{
    let drawn = printed_graph(before.options(), before.commits(), range.start, range.end);
    assert(after.drawn()->0@ == drawn);
    if row < drawn.0.len() {
        assert(texts(after.drawn()->0.graph_lines@)[row as int]
            == after.drawn()->0.graph_lines@[row as int]@);
    }
}

} // verus!
