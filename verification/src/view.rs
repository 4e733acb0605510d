//! What a draw of the list shows.

use vstd::prelude::*;

use crate::commit_list::CommitList;
use crate::doc_line::DocLine;
use crate::text::{decimal, decimal_text};

verus! {

/// Columns, and rows, that the border takes.
pub const BORDER: u16 = 2;

/// What a draw shows.
pub struct DrawPlan {
    /// Title of the view.
    pub title: String,
    /// Columns inside the border.
    pub width: usize,
    /// Rows inside the border.
    pub height: usize,
    /// Greatest position of the scroll bar.
    pub scroll_max: usize,
    /// Position of the scroll bar.
    pub scroll_position: usize,
}

/// `size` without the border.
pub open spec fn inner_size(size: u16) -> u16 {
    if size <= BORDER {
        0
    } else {
        (size - BORDER) as u16
    }
}

/// The first line that a window of `height` lines shows: it moves just as far as the selection
/// makes it.
pub open spec fn scrolled_top(top: int, height: int, selection: int) -> int {
    if height == 0 {
        0
    } else if top + height <= selection {
        selection - height + 1
    } else if selection < top {
        selection
    } else {
        top
    }
}

/// The first line that a window of `height_in_lines` lines shows, such that it shows the line
/// `selection`.
pub fn calc_scroll_top(current_top: usize, height_in_lines: usize, selection: usize) -> (r: usize)
    ensures
        r == scrolled_top(current_top as int, height_in_lines as int, selection as int),
{
    if height_in_lines == 0 {
        0
    } else if selection >= height_in_lines && current_top <= selection - height_in_lines {
        selection - height_in_lines + 1
    } else if current_top > selection {
        selection
    } else {
        current_top
    }
}

/// The title of the view: the name, the number of commits from the selected one on, and that of
/// all commits.
pub open spec fn title_text(title: Seq<char>, commits: int, selected: int) -> Seq<char> {
    title + seq![' '] + decimal(
        (if selected <= commits {
            commits - selected
        } else {
            0
        }) as nat,
    ) + seq!['/'] + decimal(commits as nat)
}

impl CommitList {
    /// Fits the list into an area of the screen, and scrolls to the selection.
    pub fn draw(&mut self, area_width: u16, area_height: u16) -> (r: DrawPlan)
        ensures
            *final(self) == (CommitList {
                current_size: Some((inner_size(area_width), inner_size(area_height))),
                scroll_top: DocLine::commit(
                    scrolled_top(
                        old(self).scroll_top.index(),
                        inner_size(area_height) as int,
                        old(self).selected(),
                    ),
                ),
                ..*old(self)
            }),
            r.title@ == title_text(
                old(self).title@,
                old(self).commits@.len() as int,
                old(self).selected(),
            ),
            r.width == inner_size(area_width),
            r.height == inner_size(area_height),
            r.scroll_max == old(self).last_index(),
            r.scroll_position == old(self).selected(),
    {
        let width: u16 = area_width.saturating_sub(BORDER);
        let height: u16 = area_height.saturating_sub(BORDER);
        self.current_size = Some((width, height));
        let height_in_lines: usize = height as usize;
        let selected: usize = self.selection.commit_index.into();
        let top: usize = self.scroll_top.commit_index.into();
        self.scroll_top = DocLine::at_commit(calc_scroll_top(top, height_in_lines, selected));
        let commits: usize = self.commits.len();
        let predecessors_of_selection: usize = commits.saturating_sub(selected);
        let mut title = self.title.clone();
        title.append(" ");
        title.append(decimal_text(predecessors_of_selection).as_str());
        title.append("/");
        title.append(decimal_text(commits).as_str());
        proof {
            reveal_strlit(" ");
            reveal_strlit("/");
            assert(title@ =~= title_text(self.title@, commits as int, selected as int));
        }
        let scroll_max: usize = self.selection_max().commit_index.into();
        DrawPlan {
            title,
            width: width as usize,
            height: height_in_lines,
            scroll_max,
            scroll_position: selected,
        }
    }
}

/// A window of at least one line shows the selection.
pub proof fn law_selection_visible(top: int, height: int, selection: int)
    requires
        0 <= top,
        0 < height,
        0 <= selection,
    ensures
        0 <= scrolled_top(top, height, selection) <= selection,
        selection < scrolled_top(top, height, selection) + height,
{
}

/// Whether row `row` of a window that begins at the line `top` shows the line `line`.
pub open spec fn row_shows(top: int, row: int, line: int) -> bool {
    top + row == line
}

/// Exactly one row of a window of at least one line shows the selection.
pub proof fn law_one_row_selected(top: int, height: int, selection: int) -> (row: int)
    requires
        0 <= top,
        0 < height,
        0 <= selection,
    ensures
        0 <= row < height,
        forall|i: int|
            0 <= i < height ==> (#[trigger] row_shows(
                scrolled_top(top, height, selection),
                i,
                selection,
            ) <==> i == row),
{
    selection - scrolled_top(top, height, selection)
}

/// A window that shows the selection already does not move.
pub proof fn law_scroll_is_lazy(top: int, height: int, selection: int)
    requires
        0 < height,
        top <= selection < top + height,
    ensures
        scrolled_top(top, height, selection) == top,
{
}

/// Drawing twice scrolls no further than drawing once.
pub proof fn law_scroll_settles(top: int, height: int, selection: int)
    requires
        0 <= top,
        0 <= height,
        0 <= selection,
    ensures
        scrolled_top(scrolled_top(top, height, selection), height, selection) == scrolled_top(
            top,
            height,
            selection,
        ),
{
}

/// A border takes one column or row on each side.
pub proof fn law_inner_size(size: u16)
    ensures
        size >= 2 ==> inner_size(size) == size - 2,
        size < 2 ==> inner_size(size) == 0,
{
}

/// A window scrolls no further than it has to: any other first line that shows the selection is at
/// least as far from the present one. A window without lines begins at the first line.
pub proof fn law_scroll_is_least(top: int, height: int, selection: int, other: int)
    requires
        0 <= top,
        0 < height,
        0 <= selection,
        other <= selection < other + height,
    ensures
        ({
            let scrolled = scrolled_top(top, height, selection);
            &&& scrolled > top ==> other >= scrolled
            &&& scrolled < top ==> other <= scrolled
        }),
        scrolled_top(top, 0, selection) == 0,
{
}

/// The title names the list, the commits from the selected one on, and all of them.
pub proof fn law_title(title: Seq<char>, commits: nat, selected: nat)
    ensures
        selected <= commits ==> title_text(title, commits as int, selected as int) == title
            + seq![' '] + decimal((commits - selected) as nat) + seq!['/'] + decimal(commits),
        selected > commits ==> title_text(title, commits as int, selected as int) == title
            + seq![' '] + decimal(0) + seq!['/'] + decimal(commits),
{
}

/// A list that is drawn shows its selection, where there is a row for it inside the border, and
/// keeps its selection, its commits and its marks. The scroll bar stands at the selection.
pub proof fn law_drawn_list(
    before: CommitList,
    width: u16,
    height: u16,
    after: CommitList,
    r: DrawPlan,
)
    requires
        exists|m: &mut CommitList|
            *m == before && *final(m) == after && #[trigger] call_ensures(
                CommitList::draw,
                (m, width, height),
                r,
            ),
        width > 2,
        height > 2,
    ensures
        r.width == width - 2,
        r.height == height - 2,
        after.current_size == Some(((width - 2) as u16, (height - 2) as u16)),
        after.scroll_top.commit_index.0 <= before.selection.commit_index.0
            < after.scroll_top.commit_index.0 + r.height,
        after.selection == before.selection,
        after.commits == before.commits,
        after.marked == before.marked,
        r.scroll_position == before.selection.commit_index.0,
        before.commits@.len() > 0 ==> r.scroll_max == before.commits@.len() - 1,
{
}

} // verus!
