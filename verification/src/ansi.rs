//! Styled text out of text with ANSI escape sequences, by the `ansi_to_tui` crate.

use ansi_to_tui::IntoText;
use vstd::prelude::*;

use crate::text::optional_text;

verus! {

/// A piece of text, its foreground, background and underline colours, and the modifiers that it
/// sets and takes away.
pub type AnsiSpan = (String, Option<String>, Option<String>, Option<String>, u16, u16);

/// What a piece of styled text holds.
pub type AnsiSpanView = (
    Seq<char>,
    Option<Seq<char>>,
    Option<Seq<char>>,
    Option<Seq<char>>,
    u16,
    u16,
);

/// Whether `c` breaks a line.
pub open spec fn is_break(c: char) -> bool {
    c == '\n' || c == '\r'
}

/// Whether `text` has no line breaks.
pub open spec fn unbroken(text: Seq<char>) -> bool {
    forall|i: int| 0 <= i < text.len() ==> !is_break(#[trigger] text[i])
}

/// Whether `text` is a single line, which one line break may end.
pub open spec fn single_line(text: Seq<char>) -> bool {
    ||| unbroken(text)
    ||| text.len() >= 1 && is_break(text.last()) && unbroken(text.drop_last())
    ||| text.len() >= 2 && text.last() == '\n' && text[text.len() - 2] == '\r' && unbroken(
        text.take(text.len() - 2),
    )
}

/// Whether the first `count` characters of `text` have no line breaks.
fn is_unbroken(text: &str, count: usize) -> (r: bool)
    requires
        count <= text@.len(),
    ensures
        r == unbroken(text@.take(count as int)),
{
    let ghost part = text@.take(count as int);
    let mut i: usize = 0;
    while i < count
        invariant
            i <= count,
            count <= text@.len(),
            part == text@.take(count as int),
            forall|k: int| 0 <= k < i ==> !is_break(#[trigger] part[k]),
        decreases count - i,
    {
        let c = text.get_char(i);
        assert(part[i as int] == c);
        if c == '\n' || c == '\r' {
            return false;
        }
        i = i + 1;
    }
    true
}

/// Whether `text` is a single line, which one line break may end.
pub fn is_single_line(text: &String) -> (r: bool)
    ensures
        r == single_line(text@),
{
    let text = text.as_str();
    let len: usize = text.unicode_len();
    assert(text@.take(len as int) =~= text@);
    if is_unbroken(text, len) {
        return true;
    }
    let last = text.get_char(len - 1);
    let broken_at_end = last == '\n' || last == '\r';
    if broken_at_end && is_unbroken(text, len - 1) {
        assert(text@.take(len - 1) =~= text@.drop_last());
        return true;
    }
    assert(text@.take(len - 1) =~= text@.drop_last());
    len >= 2 && last == '\n' && text.get_char(len - 2) == '\r' && is_unbroken(text, len - 2)
}

/// What a piece of styled text holds.
pub open spec fn ansi_span_view(span: AnsiSpan) -> AnsiSpanView {
    (span.0@, optional_text(span.1), optional_text(span.2), optional_text(span.3), span.4, span.5)
}

/// What the pieces of a line hold.
pub open spec fn ansi_line_view(line: Vec<AnsiSpan>) -> Seq<AnsiSpanView> {
    line@.map_values(|span: AnsiSpan| ansi_span_view(span))
}

/// The lines that `IntoText::into_text` of `ansi_to_tui` makes of a text, each a sequence of styled
/// pieces.
pub uninterp spec fn ansi_lines(text: Seq<char>) -> Seq<
    Seq<(Seq<char>, Option<Seq<char>>, Option<Seq<char>>, Option<Seq<char>>, u16, u16)>,
>;

/// `IntoText::into_text` of `ansi_to_tui` on a string. It never fails, and what it makes of the
/// escape sequences depends on the string alone; colours are given by their names. A string makes
/// one line exactly where it has no line break, or a single one that ends it.
#[verifier::external_body]
pub(crate) fn into_text(text: &String) -> (r: Vec<Vec<AnsiSpan>>)
    ensures
        r@.map_values(|line: Vec<AnsiSpan>| ansi_line_view(line)) == ansi_lines(text@),
        r@.len() == 1 <==> single_line(text@),
{
    let name = |c: ratatui::style::Color| c.to_string();
    let span = |s: ratatui::text::Span<'static>| {
        let (fg, bg, ul) = (s.style.fg, s.style.bg, s.style.underline_color);
        let (add, sub) = (s.style.add_modifier.bits(), s.style.sub_modifier.bits());
        (s.content.into_owned(), fg.map(name), bg.map(name), ul.map(name), add, sub)
    };
    let lines = text.as_bytes().into_text().unwrap().lines;
    lines.into_iter().map(|line| line.spans.into_iter().map(span).collect()).collect()
}

/// The pieces of the line that `text` is.
pub open spec fn ansi_line(text: Seq<char>) -> Seq<AnsiSpanView> {
    ansi_lines(text)[0]
}

/// The styled pieces of a single line of text.
pub fn ansi_spans(text: &String) -> (r: Vec<AnsiSpan>)
    requires
        single_line(text@),
    ensures
        ansi_line_view(r) == ansi_line(text@),
        r@.len() == ansi_lines(text@)[0].len(),
        forall|i: int|
            0 <= i < r@.len() ==> {
                let piece = ansi_lines(text@)[0][i];
                &&& (#[trigger] r@[i]).0@ == piece.0
                &&& r@[i].4 == piece.4
                &&& r@[i].5 == piece.5
                &&& r@[i].1 is Some <==> piece.1 is Some
                &&& r@[i].1 is Some ==> r@[i].1->0@ == piece.1->0
                &&& r@[i].2 is Some <==> piece.2 is Some
                &&& r@[i].2 is Some ==> r@[i].2->0@ == piece.2->0
                &&& r@[i].3 is Some <==> piece.3 is Some
                &&& r@[i].3 is Some ==> r@[i].3->0@ == piece.3->0
            },
{
    let mut lines = into_text(text);
    let ghost before = lines@;
    let line = lines.remove(0);
    assert(ansi_lines(text@)[0] == ansi_line_view(before[0])) by {
        assert(before.map_values(|line: Vec<AnsiSpan>| ansi_line_view(line)).len() > 0);
    }
    assert forall|i: int| 0 <= i < line@.len() implies ansi_span_view(#[trigger] line@[i])
        == ansi_lines(text@)[0][i] by {
        assert(ansi_line_view(line)[i] == ansi_span_view(line@[i]));
    }
    line
}

/// A text is a single line exactly where its only line break, if it has one, ends it: a line feed,
/// a carriage return, or both in the order of a carriage return and a line feed.
pub proof fn law_single_line(text: Seq<char>)
    ensures
        (forall|i: int| 0 <= i < text.len() ==> #[trigger] text[i] != '\n' && text[i] != '\r') ==> {
            &&& single_line(text)
            &&& single_line(text.push('\n'))
            &&& single_line(text.push('\r'))
            &&& single_line(text.push('\r').push('\n'))
        },
        single_line(text) ==> forall|i: int|
            0 <= i < text.len() - 1 && (#[trigger] text[i] == '\n' || text[i] == '\r') ==> i
                == text.len() - 2 && text[i] == '\r' && text[i + 1] == '\n',
{
    if forall|i: int| 0 <= i < text.len() ==> #[trigger] text[i] != '\n' && text[i] != '\r' {
        assert(text.push('\n').drop_last() =~= text);
        assert(text.push('\r').drop_last() =~= text);
        let both = text.push('\r').push('\n');
        assert(both.take(both.len() - 2) =~= text);
    }
    if single_line(text) {
        assert forall|i: int|
            0 <= i < text.len() - 1 && (#[trigger] text[i] == '\n' || text[i] == '\r') implies i
            == text.len() - 2 && text[i] == '\r' && text[i + 1] == '\n' by {
            if !unbroken(text) {
                if is_break(text.last()) && unbroken(text.drop_last()) {
                    assert(!is_break(text.drop_last()[i]));
                } else if i < text.len() - 2 {
                    assert(!is_break(text.take(text.len() - 2)[i]));
                }
            }
        }
    }
}

} // verus!
