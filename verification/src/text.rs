//! Texts that the view is made of.

use vstd::prelude::*;

verus! {

/// `n` spaces.
pub open spec fn spaces(n: nat) -> Seq<char> {
    Seq::new(n, |i: int| ' ')
}

/// The parts in order, with `separator` between each two of them.
pub open spec fn joined(parts: Seq<Seq<char>>, separator: Seq<char>) -> Seq<char>
    decreases parts.len(),
{
    if parts.len() == 0 {
        Seq::empty()
    } else if parts.len() == 1 {
        parts[0]
    } else {
        joined(parts.drop_last(), separator) + separator + parts.last()
    }
}

/// The texts that `strings` hold.
pub open spec fn texts(strings: Seq<String>) -> Seq<Seq<char>> {
    strings.map_values(|s: String| s@)
}

/// The text of a string that may be missing.
pub open spec fn optional_text(string: Option<String>) -> Option<Seq<char>> {
    match string {
        Some(s) => Some(s@),
        None => None,
    }
}

/// Number of bytes in the UTF-8 encoding of `text`.
pub open spec fn byte_len(text: Seq<char>) -> usize {
    vstd::utf8::encode_utf8(text).len() as usize
}

/// `text` with spaces behind it, up to `width` characters.
pub open spec fn padded(text: Seq<char>, width: nat) -> Seq<char> {
    if text.len() < width {
        text + spaces((width - text.len()) as nat)
    } else {
        text
    }
}

/// `text` fitted into a column of `width` characters: padded when it is short, cut and marked with
/// two dots when it is long.
pub open spec fn aligned(text: Seq<char>, width: nat) -> Seq<char> {
    if text.len() <= width {
        padded(text, width)
    } else if width >= 2 {
        text.take(width - 2) + seq!['.', '.']
    } else {
        seq!['.', '.']
    }
}

/// The decimal digits of `n`.
pub open spec fn decimal(n: nat) -> Seq<char>
    decreases n,
{
    if n < 10 {
        seq![decimal_digit(n as int)]
    } else {
        decimal(n / 10).push(decimal_digit((n % 10) as int))
    }
}

/// The decimal digit for `n`.
pub open spec fn decimal_digit(n: int) -> char {
    (n + 0x30) as char
}

/// An aligned text is as wide as its column, or two characters wide in a narrower one that it does
/// not fit.
pub proof fn law_aligned_width(text: Seq<char>, width: nat)
    ensures
        text.len() <= width || width >= 2 ==> aligned(text, width).len() == width,
        text.len() > width && width < 2 ==> aligned(text, width).len() == 2,
{
}

/// Joins texts with a separator between them.
pub fn join(parts: &Vec<String>, separator: &str) -> (r: String)
    ensures
        r@ == joined(texts(parts@), separator@),
{
    let mut out = String::new();
    let mut i: usize = 0;
    let ghost all = texts(parts@);
    assert(all.take(0) =~= Seq::<Seq<char>>::empty());
    while i < parts.len()
        invariant
            i <= parts.len(),
            all == texts(parts@),
            out@ == joined(all.take(i as int), separator@),
        decreases parts.len() - i,
    {
        assert(all.take(i + 1).drop_last() =~= all.take(i as int));
        assert(all.take(i + 1).last() == parts@[i as int]@);
        if i > 0 {
            out.append(separator);
        }
        out.append(parts[i].as_str());
        assert(out@ =~= joined(all.take(i + 1), separator@));
        i = i + 1;
    }
    assert(all.take(i as int) =~= all);
    out
}

/// The decimal text of `n`.
pub fn decimal_text(n: usize) -> (r: String)
    ensures
        r@ == decimal(n as nat),
    decreases n,
{
    if n < 10 {
        digit_text(n).to_owned()
    } else {
        let mut out = decimal_text(n / 10);
        out.append(digit_text(n % 10));
        assert(out@ =~= decimal(n as nat));
        out
    }
}

fn digit_text(n: usize) -> (r: &'static str)
    requires
        n < 10,
    ensures
        r@ == seq![decimal_digit(n as int)],
{
    proof {
        reveal_strlit("0");
        reveal_strlit("1");
        reveal_strlit("2");
        reveal_strlit("3");
        reveal_strlit("4");
        reveal_strlit("5");
        reveal_strlit("6");
        reveal_strlit("7");
        reveal_strlit("8");
        reveal_strlit("9");
    }
    match n {
        0 => "0",
        1 => "1",
        2 => "2",
        3 => "3",
        4 => "4",
        5 => "5",
        6 => "6",
        7 => "7",
        8 => "8",
        _ => "9",
    }
}

/// Pads `text` with spaces to `width` characters. A longer text stays as it is.
pub fn pad(text: &str, width: usize) -> (r: String)
    ensures
        r@ == padded(text@, width as nat),
{
    let len: usize = text.unicode_len();
    let mut out = text.to_owned();
    let mut i: usize = len;
    proof {
        reveal_strlit(" ");
        assert(out@ =~= text@ + spaces(0));
    }
    while i < width
        invariant
            len == text@.len(),
            len <= i,
            i <= width || i == len,
            out@ == text@ + spaces((i - len) as nat),
            " "@ == seq![' '],
        decreases width - i,
    {
        out.append(" ");
        i = i + 1;
        assert(out@ =~= text@ + spaces((i - len) as nat));
    }
    assert(text@ + spaces(0) =~= text@);
    out
}

/// Fits `s` into a column of `width` characters.
pub fn string_width_align(s: &str, width: usize) -> (r: String)
    ensures
        r@ == aligned(s@, width as nat),
{
    let len: usize = s.unicode_len();
    if len <= width {
        pad(s, width)
    } else {
        let kept: usize = if width >= 2 {
            width - 2
        } else {
            0
        };
        let mut out = s.substring_char(0, kept).to_owned();
        out.append("..");
        proof {
            reveal_strlit("..");
            assert(out@ =~= aligned(s@, width as nat));
        }
        out
    }
}

/// An aligned text that fits is followed by spaces only. One that does not fit keeps its beginning,
/// and two dots stand for the rest.
pub proof fn law_aligned_content(text: Seq<char>, width: nat)
    ensures
        text.len() <= width ==> aligned(text, width).len() == width && aligned(text, width).take(
            text.len() as int,
        ) == text && forall|i: int|
            text.len() <= i < width ==> #[trigger] aligned(text, width)[i] == ' ',
        text.len() > width && width >= 2 ==> aligned(text, width).len() == width && aligned(
            text,
            width,
        ).take(width - 2) == text.take(width - 2) && aligned(text, width)[width - 2] == '.'
            && aligned(text, width)[width - 1] == '.',
        text.len() > width && width < 2 ==> aligned(text, width) == seq!['.', '.'],
{
    let fitted = aligned(text, width);
    if text.len() <= width {
        assert(fitted.take(text.len() as int) =~= text);
    } else if width >= 2 {
        assert(fitted.take(width - 2) =~= text.take(width - 2));
    }
}

/// A padded text begins with the text, is followed by spaces only, and is no longer than it has to
/// be.
pub proof fn law_padded_content(text: Seq<char>, width: nat)
    ensures
        padded(text, width).len() == if text.len() < width {
            width
        } else {
            text.len()
        },
        padded(text, width).take(text.len() as int) == text,
        forall|i: int|
            text.len() <= i < padded(text, width).len() ==> #[trigger] padded(text, width)[i]
                == ' ',
{
    assert(padded(text, width).take(text.len() as int) =~= text);
}

/// Joined texts are those of the first parts, the separator, and those of the other parts. One part
/// joined is itself, and no parts are nothing.
pub proof fn law_joined_in_two(a: Seq<Seq<char>>, b: Seq<Seq<char>>, separator: Seq<char>)
    ensures
        joined(Seq::<Seq<char>>::empty(), separator) == Seq::<char>::empty(),
        a.len() == 1 ==> joined(a, separator) == a[0],
        a.len() > 0 && b.len() > 0 ==> joined(a + b, separator) == joined(a, separator) + separator
            + joined(b, separator),
    decreases b.len(),
{
    if a.len() > 0 && b.len() > 0 {
        let rest = b.drop_last();
        assert((a + b).drop_last() =~= a + rest);
        assert((a + b).last() == b.last());
        if rest.len() == 0 {
            assert(a + rest =~= a);
        } else {
            law_joined_in_two(a, rest, separator);
            assert(joined(a, separator) + separator + joined(rest, separator) + separator
                + b.last() =~= joined(a, separator) + separator + (joined(rest, separator)
                + separator + b.last()));
        }
    }
}

/// The parts of a text between the occurrences of `c`.
pub open spec fn split(text: Seq<char>, c: char) -> Seq<Seq<char>>
    decreases text.len(),
{
    if text.len() == 0 {
        seq![Seq::<char>::empty()]
    } else {
        let before = split(text.drop_last(), c);
        if text.last() == c {
            before.push(Seq::empty())
        } else {
            before.update(before.len() - 1, before.last().push(text.last()))
        }
    }
}

/// Splitting a text with more behind it leaves all parts but the last as they were.
proof fn lemma_split_append(text: Seq<char>, c: char, more: Seq<char>)
    requires
        !more.contains(c),
    ensures
        split(text, c).len() > 0,
        split(text + more, c) == split(text, c).update(
            split(text, c).len() - 1,
            split(text, c).last() + more,
        ),
    decreases text.len() + more.len(),
{
    if more.len() == 0 {
        assert(text + more =~= text);
        if text.len() > 0 {
            lemma_split_append(text.drop_last(), c, Seq::empty());
            assert(text.drop_last() + Seq::<char>::empty() =~= text.drop_last());
        }
        assert(split(text, c).last() + more =~= split(text, c).last());
        assert(split(text, c).update(split(text, c).len() - 1, split(text, c).last()) =~= split(
            text,
            c,
        ));
    } else {
        let rest = more.drop_last();
        assert(!rest.contains(c)) by {
            if rest.contains(c) {
                let i = choose|i: int| 0 <= i < rest.len() && rest[i] == c;
                assert(more[i] == c);
            }
        }
        assert(more.contains(more.last()));
        lemma_split_append(text, c, rest);
        assert((text + more).drop_last() =~= text + rest);
        assert((text + more).last() == more.last());
        assert(split(text, c).last() + rest.push(more.last()) =~= (split(text, c).last()
            + rest).push(more.last()));
        assert(rest.push(more.last()) =~= more);
    }
}

/// Joined texts can be taken apart again, where none of them has the separator.
pub proof fn law_split_joined(parts: Seq<Seq<char>>, c: char)
    requires
        parts.len() > 0,
        forall|i: int| 0 <= i < parts.len() ==> !(#[trigger] parts[i]).contains(c),
    ensures
        split(joined(parts, seq![c]), c) == parts,
    decreases parts.len(),
{
    let last = parts.last();
    assert(!last.contains(c)) by {
        assert(!parts[parts.len() - 1].contains(c));
    }
    if parts.len() == 1 {
        lemma_split_append(Seq::empty(), c, last);
        assert(Seq::<char>::empty() + last =~= last);
        assert(split(last, c) =~= parts);
    } else {
        let rest = parts.drop_last();
        assert forall|i: int| 0 <= i < rest.len() implies !(#[trigger] rest[i]).contains(c) by {
            assert(rest[i] == parts[i]);
        }
        law_split_joined(rest, c);
        let before = joined(rest, seq![c]) + seq![c];
        assert(before.drop_last() =~= joined(rest, seq![c]));
        lemma_split_append(before, c, last);
        assert(Seq::<char>::empty() + last =~= last);
        assert(split(joined(parts, seq![c]), c) =~= parts);
    }
}

/// What decimal digits stand for.
pub open spec fn decimal_value(digits: Seq<char>) -> int
    decreases digits.len(),
{
    if digits.len() == 0 {
        0
    } else {
        10 * decimal_value(digits.drop_last()) + (digits.last() as int - '0' as int)
    }
}

/// The decimal text of a number stands for it, is made of digits, and begins with a zero for zero
/// only.
pub proof fn law_decimal_value(n: nat)
    ensures
        decimal(n).len() > 0,
        decimal_value(decimal(n)) == n,
        forall|i: int| 0 <= i < decimal(n).len() ==> '0' <= #[trigger] decimal(n)[i] <= '9',
        decimal(n)[0] == '0' <==> n == 0,
        n == 0 ==> decimal(n).len() == 1,
    decreases n,
{
    let digit = decimal_digit((n % 10) as int);
    assert(digit as int == n % 10 + 0x30);
    if n < 10 {
        assert(seq![digit].drop_last() =~= Seq::<char>::empty());
        assert(decimal_value(Seq::<char>::empty()) == 0);
    } else {
        law_decimal_value(n / 10);
        assert(decimal(n).drop_last() =~= decimal(n / 10));
        assert(decimal(n)[0] == decimal(n / 10)[0]);
    }
}

/// The texts of strings are theirs, one for one.
pub proof fn law_texts(strings: Seq<String>, string: Option<String>)
    ensures
        texts(strings).len() == strings.len(),
        forall|i: int| 0 <= i < strings.len() ==> #[trigger] texts(strings)[i] == strings[i]@,
        optional_text(string) is Some <==> string is Some,
        string is Some ==> optional_text(string) == Some(string->0@),
{
}

/// A number that is written in digits is the number that they stand for.
pub proof fn law_decimal_text(n: usize, r: String)
    requires
        call_ensures(decimal_text, (n,), r),
    ensures
        decimal_value(r@) == n,
        forall|i: int| 0 <= i < r@.len() ==> '0' <= #[trigger] r@[i] <= '9',
{
    law_decimal_value(n as nat);
}

/// Strings that are joined can be taken apart again, where none of them has the separator.
pub proof fn law_join(parts: &Vec<String>, separator: &str, c: char, r: String)
    requires
        separator@ == seq![c],
        parts@.len() > 0,
        forall|i: int| 0 <= i < parts@.len() ==> !(#[trigger] parts@[i])@.contains(c),
        call_ensures(join, (parts, separator), r),
    ensures
        split(r@, c).len() == parts@.len(),
        forall|i: int| 0 <= i < parts@.len() ==> #[trigger] split(r@, c)[i] == parts@[i]@,
{
    let all = texts(parts@);
    assert forall|i: int| 0 <= i < all.len() implies !(#[trigger] all[i]).contains(c) by {
        assert(all[i] == parts@[i]@);
    }
    law_split_joined(all, c);
}

} // verus!
