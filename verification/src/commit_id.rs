//! Commit ids and their hexadecimal text.

use vstd::prelude::*;

verus! {

/// Number of hexadecimal digits in the text of a commit id.
pub const ID_DIGITS: usize = 40;

/// Number of digits in the short text of a commit id.
pub const SHORT_ID_DIGITS: usize = 7;

/// Id of a commit: a number of 160 bits.
///
/// Ids are ordered as numbers, which is also the order of their texts.
#[derive(Clone, Copy, Debug, Default, PartialEq, Eq, PartialOrd, Ord, Hash, Structural)]
pub struct CommitId {
    /// The upper 128 bits.
    pub high: u128,
    /// The lower 32 bits.
    pub low: u32,
}

/// Why a text is not a commit id.
#[derive(Clone, Copy, Debug, PartialEq, Eq, Structural)]
pub enum CommitIdError {
    /// The text is empty.
    Empty,
    /// The text has more than [`ID_DIGITS`] characters.
    TooLong,
    /// Some character of the text is no hexadecimal digit.
    NotHexadecimal,
}

/// The hexadecimal digit for `n`, in lower case.
pub open spec fn hex_digit(n: int) -> char {
    if n < 10 {
        (n + 0x30) as char
    } else {
        (n + 0x57) as char
    }
}

/// The last `width` hexadecimal digits of `n`.
pub open spec fn hex(n: nat, width: nat) -> Seq<char>
    decreases width,
{
    if width == 0 {
        Seq::empty()
    } else {
        hex(n / 16, (width - 1) as nat).push(hex_digit((n % 16) as int))
    }
}

/// Sixteen to the power of `n`.
pub open spec fn pow16(n: nat) -> nat
    decreases n,
{
    if n == 0 {
        1
    } else {
        16 * pow16((n - 1) as nat)
    }
}

/// What a hexadecimal digit, of either case, stands for.
pub open spec fn hex_value(c: char) -> Option<int> {
    if '0' <= c <= '9' {
        Some(c as int - 0x30)
    } else if 'a' <= c <= 'f' {
        Some(c as int - 0x57)
    } else if 'A' <= c <= 'F' {
        Some(c as int - 0x37)
    } else {
        None
    }
}

/// Whether every character of `text` is a hexadecimal digit.
pub open spec fn all_hex(text: Seq<char>) -> bool {
    forall|i: int| 0 <= i < text.len() ==> hex_value(#[trigger] text[i]) is Some
}

/// The digits of `text` in lower case, followed by zeros up to the length of an id.
pub open spec fn padded_digits(text: Seq<char>) -> Seq<char> {
    Seq::new(
        ID_DIGITS as nat,
        |i: int|
            if i < text.len() {
                hex_digit(hex_value(text[i])->0)
            } else {
                '0'
            },
    )
}

/// The text of `hex` has the width it was asked for.
pub proof fn lemma_hex_len(n: nat, width: nat)
    ensures
        hex(n, width).len() == width,
    decreases width,
{
    if width > 0 {
        lemma_hex_len(n / 16, (width - 1) as nat);
    }
}

/// Numbers below `16^width` are told apart by their digits.
proof fn lemma_hex_injective(a: nat, b: nat, width: nat)
    requires
        a < pow16(width),
        b < pow16(width),
        hex(a, width) == hex(b, width),
    ensures
        a == b,
    decreases width,
{
    if width > 0 {
        let shorter = (width - 1) as nat;
        let (ha, hb) = (hex(a / 16, shorter), hex(b / 16, shorter));
        lemma_hex_len(a / 16, shorter);
        lemma_hex_len(b / 16, shorter);
        assert(ha == hex(a, width).drop_last());
        assert(hb == hex(b, width).drop_last());
        assert(hex_digit((a % 16) as int) == hex(a, width).last());
        assert(hex_digit((b % 16) as int) == hex(b, width).last());
        lemma_hex_injective(a / 16, b / 16, shorter);
        lemma_digit_injective((a % 16) as int, (b % 16) as int);
    }
}

proof fn lemma_digit_injective(a: int, b: int)
    requires
        0 <= a < 16,
        0 <= b < 16,
        hex_digit(a) == hex_digit(b),
    ensures
        a == b,
{
}

proof fn lemma_pow16_limits()
    ensures
        pow16(32) == 0x1_0000_0000_0000_0000_0000_0000_0000_0000,
        pow16(8) == 0x1_0000_0000,
{
    reveal_with_fuel(pow16, 33);
}

proof fn lemma_pow16_monotonic(a: nat, b: nat)
    requires
        a <= b,
    ensures
        1 <= pow16(a) <= pow16(b),
    decreases b,
{
    if a < b {
        lemma_pow16_monotonic(a, (b - 1) as nat);
    } else if b > 0 {
        lemma_pow16_monotonic((a - 1) as nat, (b - 1) as nat);
    }
}

/// Appending a digit to `n` appends it to the digits of `n`.
proof fn lemma_hex_step(n: nat, width: nat, d: int)
    requires
        0 <= d < 16,
    ensures
        hex((16 * n + d) as nat, width + 1) == hex(n, width).push(hex_digit(d)),
{
    let m = (16 * n + d) as nat;
    assert(m / 16 == n);
    assert(m % 16 == d);
}

/// Two commit ids with the same text are the same id.
pub proof fn law_text_identifies_commit(a: CommitId, b: CommitId)
    requires
        a.text() == b.text(),
    ensures
        a == b,
{
    lemma_pow16_limits();
    lemma_hex_len(a.high as nat, 32);
    lemma_hex_len(b.high as nat, 32);
    lemma_hex_len(a.low as nat, 8);
    lemma_hex_len(b.low as nat, 8);
    assert(a.text().take(32) == hex(a.high as nat, 32));
    assert(b.text().take(32) == hex(b.high as nat, 32));
    assert(a.text().skip(32) == hex(a.low as nat, 8));
    assert(b.text().skip(32) == hex(b.low as nat, 8));
    lemma_hex_injective(a.high as nat, b.high as nat, 32);
    lemma_hex_injective(a.low as nat, b.low as nat, 8);
}

/// The text of an id has [`ID_DIGITS`] digits, each of them a hexadecimal digit in lower case.
pub proof fn law_text_shape(id: CommitId)
    ensures
        id.text().len() == ID_DIGITS,
        all_hex(id.text()),
        padded_digits(id.text()) == id.text(),
{
    lemma_hex_digits(id.high as nat, 32);
    lemma_hex_digits(id.low as nat, 8);
    assert forall|i: int|
        0 <= i < id.text().len() implies hex_value(#[trigger] id.text()[i]) is Some
        && hex_digit(hex_value(id.text()[i])->0) == id.text()[i] by {
        if i < 32 {
            assert(id.text()[i] == hex(id.high as nat, 32)[i]);
        } else {
            assert(id.text()[i] == hex(id.low as nat, 8)[i - 32]);
        }
    }
    assert(padded_digits(id.text()) =~= id.text());
}

proof fn lemma_hex_digits(n: nat, width: nat)
    ensures
        hex(n, width).len() == width,
        forall|i: int|
            0 <= i < width ==> {
                let c = #[trigger] hex(n, width)[i];
                hex_value(c) is Some && hex_digit(hex_value(c)->0) == c
            },
    decreases width,
{
    if width > 0 {
        lemma_hex_digits(n / 16, (width - 1) as nat);
    }
}

impl CommitId {
    /// The forty hexadecimal digits of the id.
    pub open spec fn text(self) -> Seq<char> {
        hex(self.high as nat, 32) + hex(self.low as nat, 8)
    }

    /// Whether the id comes before `other` in the order of ids.
    pub open spec fn before(self, other: CommitId) -> bool {
        self.high < other.high || (self.high == other.high && self.low < other.low)
    }

    /// Whether the id comes before `other` in the order of ids.
    pub fn is_before(&self, other: &CommitId) -> (r: bool)
        ensures
            r == self.before(*other),
    {
        self.high < other.high || (self.high == other.high && self.low < other.low)
    }

    /// The text of the id: forty hexadecimal digits in lower case.
    pub fn to_string(&self) -> (r: String)
        ensures
            r@ == self.text(),
    {
        let mut out = String::new();
        append_hex(&mut out, self.high, 32);
        append_hex(&mut out, self.low as u128, 8);
        assert(out@ =~= self.text());
        out
    }

    /// The first [`SHORT_ID_DIGITS`] digits of the text.
    pub fn get_short_string(&self) -> (r: String)
        ensures
            r@ == self.text().take(SHORT_ID_DIGITS as int),
    {
        let full = self.to_string();
        proof {
            law_text_shape(*self);
        }
        full.as_str().substring_char(0, SHORT_ID_DIGITS).to_owned()
    }

    /// Reads an id from its text, without asking whether any repository has that commit.
    ///
    /// Digits may be of either case. Digits that are left out at the end are zeros.
    pub fn from_str_unchecked(text: &str) -> (r: Result<CommitId, CommitIdError>)
        ensures
            r is Err && r->Err_0 is Empty <==> text@.len() == 0,
            r is Err && r->Err_0 is TooLong <==> text@.len() > ID_DIGITS,
            r is Err && r->Err_0 is NotHexadecimal <==> 0 < text@.len() <= ID_DIGITS && !all_hex(
                text@,
            ),
            r matches Ok(id) ==> id.text() == padded_digits(text@),
    {
        let len: usize = text.unicode_len();
        if len == 0 {
            return Err(CommitIdError::Empty);
        }
        if len > ID_DIGITS {
            return Err(CommitIdError::TooLong);
        }
        let mut high: u128 = 0;
        let mut low: u32 = 0;
        let mut i: usize = 0;
        let ghost digits = padded_digits(text@);
        proof {
            lemma_pow16_limits();
            assert(hex(0, 0) =~= digits.take(0));
            assert(digits.subrange(32, 32) =~= hex(0, 0));
        }
        while i < ID_DIGITS
            invariant
                len == text@.len(),
                1 <= len <= ID_DIGITS,
                i <= ID_DIGITS,
                digits == padded_digits(text@),
                forall|j: int| 0 <= j < i && j < len ==> hex_value(#[trigger] text@[j]) is Some,
                i <= 32 ==> hex(high as nat, i as nat) == digits.take(i as int) && high < pow16(
                    i as nat,
                ),
                i <= 32 ==> low == 0,
                i >= 32 ==> hex(high as nat, 32) == digits.take(32),
                i >= 32 ==> hex(low as nat, (i - 32) as nat) == digits.subrange(32, i as int)
                    && low < pow16((i - 32) as nat),
            decreases ID_DIGITS - i,
        {
            let digit: u32 = if i < len {
                match digit_value(text.get_char(i)) {
                    Some(d) => d,
                    None => {
                        return Err(CommitIdError::NotHexadecimal);
                    },
                }
            } else {
                0
            };
            assert(digits[i as int] == hex_digit(digit as int));
            proof {
                lemma_pow16_limits();
                lemma_pow16_monotonic(i as nat, i as nat);
            }
            if i < 32 {
                proof {
                    lemma_pow16_monotonic((i + 1) as nat, 32);
                    lemma_hex_step(high as nat, i as nat, digit as int);
                    assert(digits.take(i + 1) =~= digits.take(i as int).push(digits[i as int]));
                    assert(digits.subrange(32, 32) =~= hex(0, 0));
                }
                high = high * 16 + digit as u128;
            } else {
                proof {
                    lemma_pow16_monotonic((i - 31) as nat, 8);
                    lemma_hex_step(low as nat, (i - 32) as nat, digit as int);
                    assert(digits.subrange(32, i + 1) =~= digits.subrange(32, i as int).push(
                        digits[i as int],
                    ));
                }
                low = low * 16 + digit;
            }
            i = i + 1;
        }
        let id = CommitId { high, low };
        assert(digits =~= digits.take(32) + digits.subrange(32, 40));
        Ok(id)
    }
}

/// What the digit `c` stands for.
fn digit_value(c: char) -> (r: Option<u32>)
    ensures
        r is Some <==> hex_value(c) is Some,
        r matches Some(d) ==> d == hex_value(c)->0 && d < 16,
{
    if '0' <= c && c <= '9' {
        Some(c as u32 - 0x30)
    } else if 'a' <= c && c <= 'f' {
        Some(c as u32 - 0x57)
    } else if 'A' <= c && c <= 'F' {
        Some(c as u32 - 0x37)
    } else {
        None
    }
}

/// The digit for `n`, as a text of one character.
fn digit_text(n: u128) -> (r: &'static str)
    requires
        n < 16,
    ensures
        r@ == seq![hex_digit(n as int)],
{
    proof {
        reveal_strlit("0");
        reveal_strlit("1");
        reveal_strlit("2");
        reveal_strlit("3");
        reveal_strlit("4");
        reveal_strlit("5");
        reveal_strlit("6");
        reveal_strlit("7");
        reveal_strlit("8");
        reveal_strlit("9");
        reveal_strlit("a");
        reveal_strlit("b");
        reveal_strlit("c");
        reveal_strlit("d");
        reveal_strlit("e");
        reveal_strlit("f");
    }
    match n {
        0 => "0",
        1 => "1",
        2 => "2",
        3 => "3",
        4 => "4",
        5 => "5",
        6 => "6",
        7 => "7",
        8 => "8",
        9 => "9",
        10 => "a",
        11 => "b",
        12 => "c",
        13 => "d",
        14 => "e",
        _ => "f",
    }
}

/// Appends the last `width` digits of `n`.
fn append_hex(out: &mut String, n: u128, width: usize)
    ensures
        final(out)@ == old(out)@ + hex(n as nat, width as nat),
    decreases width,
{
    if width > 0 {
        append_hex(out, n / 16, width - 1);
        out.append(digit_text(n % 16));
        assert(out@ =~= old(out)@ + hex(n as nat, width as nat));
    } else {
        assert(out@ =~= old(out)@ + hex(n as nat, 0));
    }
}

/// What hexadecimal digits in lower case stand for.
pub open spec fn hex_number(digits: Seq<char>) -> int
    decreases digits.len(),
{
    if digits.len() == 0 {
        0
    } else {
        let c = digits.last();
        16 * hex_number(digits.drop_last()) + if c <= '9' {
            c as int - '0' as int
        } else {
            c as int - 'a' as int + 10
        }
    }
}

proof fn lemma_hex_number(n: nat, width: nat)
    requires
        n < pow16(width),
    ensures
        hex_number(hex(n, width)) == n,
        forall|i: int|
            0 <= i < width ==> '0' <= #[trigger] hex(n, width)[i] <= '9' || 'a' <= hex(n, width)[i]
                <= 'f',
    decreases width,
{
    if width > 0 {
        let shorter = (width - 1) as nat;
        lemma_hex_number(n / 16, shorter);
        lemma_hex_len(n / 16, shorter);
        assert(hex(n, width).drop_last() =~= hex(n / 16, shorter));
        let d = (n % 16) as int;
        assert(hex_digit(d) as int == if d < 10 {
            d + 0x30
        } else {
            d + 0x57
        });
    }
}

proof fn lemma_hex_number_append(a: Seq<char>, b: Seq<char>)
    ensures
        hex_number(a + b) == hex_number(a) * pow16(b.len()) + hex_number(b),
    decreases b.len(),
{
    let x = hex_number(a);
    if b.len() == 0 {
        assert(a + b =~= a);
        assert(pow16(b.len()) == 1);
        assert(x * 1 == x) by (nonlinear_arith);
    } else {
        let rest = b.drop_last();
        lemma_hex_number_append(a, rest);
        assert((a + b).drop_last() =~= a + rest);
        assert((a + b).last() == b.last());
        let p = pow16(rest.len());
        assert(pow16(b.len()) == 16 * p);
        assert(16 * (x * p) == x * (16 * p)) by (nonlinear_arith);
    }
}

/// The text of an id is forty digits of `0` to `9` and `a` to `f` that stand for its number.
pub proof fn law_text_is_the_number(id: CommitId)
    ensures
        id.text().len() == 40,
        hex_number(id.text()) == id.high * 0x1_0000_0000 + id.low,
        forall|i: int|
            0 <= i < 40 ==> '0' <= #[trigger] id.text()[i] <= '9' || 'a' <= id.text()[i] <= 'f',
{
    lemma_pow16_limits();
    lemma_hex_len(id.high as nat, 32);
    lemma_hex_len(id.low as nat, 8);
    lemma_hex_number(id.high as nat, 32);
    lemma_hex_number(id.low as nat, 8);
    lemma_hex_number_append(hex(id.high as nat, 32), hex(id.low as nat, 8));
    assert forall|i: int| 0 <= i < 40 implies '0' <= #[trigger] id.text()[i] <= '9' || 'a'
        <= id.text()[i] <= 'f' by {
        if i < 32 {
            assert(id.text()[i] == hex(id.high as nat, 32)[i]);
        } else {
            assert(id.text()[i] == hex(id.low as nat, 8)[i - 32]);
        }
    }
}

/// A character is a hexadecimal digit exactly where it is one of `0` to `9`, `a` to `f` and `A` to
/// `F`, and digits that are read keep what they stand for. Digits that are left out are zeros.
pub proof fn law_digits_are_read(text: Seq<char>, c: char)
    ensures
        hex_value(c) is Some <==> '0' <= c <= '9' || 'a' <= c <= 'f' || 'A' <= c <= 'F',
        '0' <= c <= '9' ==> hex_value(c) == Some(c as int - '0' as int),
        'a' <= c <= 'f' ==> hex_value(c) == Some(c as int - 'a' as int + 10),
        'A' <= c <= 'F' ==> hex_value(c) == Some(c as int - 'A' as int + 10),
        all_hex(text) <==> forall|i: int|
            0 <= i < text.len() ==> '0' <= #[trigger] text[i] <= '9' || 'a' <= text[i] <= 'f'
                || 'A' <= text[i] <= 'F',
        padded_digits(text).len() == 40,
        forall|i: int|
            0 <= i < 40 && i < text.len() && ('0' <= text[i] <= '9' || 'a' <= text[i] <= 'f')
                ==> #[trigger] padded_digits(text)[i] == text[i],
        forall|i: int|
            0 <= i < 40 && i < text.len() && 'A' <= text[i] <= 'F'
                ==> #[trigger] padded_digits(text)[i] as int == text[i] as int + 32,
        forall|i: int| text.len() <= i < 40 ==> #[trigger] padded_digits(text)[i] == '0',
{
}

/// The text of an id, read as an id, gives the id back.
pub proof fn law_text_reads_back(id: CommitId, read: CommitId)
    requires
        read.text() == padded_digits(id.text()),
    ensures
        read == id,
        0 < id.text().len() <= ID_DIGITS,
        all_hex(id.text()),
{
    law_text_shape(id);
    law_text_identifies_commit(read, id);
}

/// Ids are ordered as their numbers are.
pub proof fn law_ids_are_ordered(a: CommitId, b: CommitId)
    ensures
        a.before(b) <==> a.high * 0x1_0000_0000 + a.low < b.high * 0x1_0000_0000 + b.low,
        a == b <==> !a.before(b) && !b.before(a),
{
}

/// An id that is written and read is the same, and its short text is the beginning of its text.
pub proof fn law_written_id_is_read(
    id: &CommitId,
    written: String,
    short: String,
    text: &str,
    read: Result<CommitId, CommitIdError>,
)
    requires
        call_ensures(CommitId::to_string, (id,), written),
        call_ensures(CommitId::get_short_string, (id,), short),
        text@ == written@,
        call_ensures(CommitId::from_str_unchecked, (text,), read),
    ensures
        read == Ok::<CommitId, CommitIdError>(*id),
        short@.len() == 7,
        short@ == written@.take(7),
{
    law_text_shape(*id);
    law_text_reads_back(*id, read->Ok_0);
}

} // verus!
