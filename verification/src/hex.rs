//! The text of a hex dump: bytes as upper-case hexadecimal digits, line
//! numbers, and the column of printable characters.

use vstd::prelude::*;

verus! {

/// The bytes that one line of the table shows.
pub const LINE_LENGTH: usize = 16;

/// The upper-case hexadecimal digit for a value below sixteen.
pub open spec fn hex_digit(value: int) -> char {
    if value < 10 {
        ('0' as int + value) as char
    } else {
        ('A' as int + value - 10) as char
    }
}

/// A byte as its two hexadecimal digits.
pub open spec fn hex_pair(byte: u8) -> Seq<char> {
    seq![hex_digit(byte as int / 16), hex_digit(byte as int % 16)]
}

/// Each byte in turn as its two hexadecimal digits with `gap` behind them.
pub open spec fn hex_cells(bytes: Seq<u8>, gap: Seq<char>) -> Seq<char>
    decreases bytes.len(),
{
    if bytes.len() == 0 {
        Seq::empty()
    } else {
        hex_cells(bytes.drop_last(), gap) + hex_pair(bytes.last()) + gap
    }
}

/// `count` times the character `c`.
pub open spec fn repeated(c: char, count: int) -> Seq<char> {
    Seq::new(count as nat, |i: int| c)
}

/// A number in hexadecimal, with no digit more than it needs.
pub open spec fn hex_digits(value: nat) -> Seq<char>
    decreases value,
{
    if value < 16 {
        seq![hex_digit(value as int)]
    } else {
        hex_digits(value / 16).push(hex_digit((value % 16) as int))
    }
}

/// A number in hexadecimal, filled up with zeros in front to `width` digits
/// where it has fewer.
pub open spec fn padded_hex(value: nat, width: nat) -> Seq<char> {
    let digits = hex_digits(value);
    if digits.len() >= width {
        digits
    } else {
        repeated('0', width - digits.len()) + digits
    }
}

/// The character that stands for a byte in the text column: the byte itself
/// where it is a printable ASCII character, a dot otherwise.
pub open spec fn ascii_cell(byte: u8) -> char {
    if 0x20 <= byte <= 0x7e {
        byte as char
    } else {
        '.'
    }
}

/// The text column of a line.
pub open spec fn ascii_column(bytes: Seq<u8>) -> Seq<char> {
    Seq::new(bytes.len(), |i: int| ascii_cell(bytes[i]))
}

/// The digits that the line numbers of a slice of `slice_len` bytes are
/// written with: as many as the number of its full lines needs.
pub open spec fn number_width(slice_len: u64) -> nat {
    hex_digits((slice_len / 16) as nat).len()
}

/// The column of line numbers: `0x`, the number and two spaces.
pub open spec fn number_column(line_number: nat, width: nat) -> Seq<char> {
    seq!['0', 'x'] + padded_hex(line_number, width) + repeated(' ', 2)
}

/// One line of the table.
///
/// The line number, if asked for; the bytes, each as two digits and a space;
/// three spaces for each byte that a short line lacks; a space and the text
/// column, if asked for; and a line feed.
pub open spec fn table_line(
    line_number: nat,
    width: nat,
    bytes: Seq<u8>,
    line_numbers: bool,
    ascii: bool,
) -> Seq<char> {
    (if line_numbers {
        number_column(line_number, width)
    } else {
        Seq::empty()
    }) + hex_cells(bytes, seq![' ']) + (if bytes.len() < 16 {
        repeated(' ', 3 * (16 - bytes.len()))
    } else {
        Seq::empty()
    }) + (if ascii {
        seq![' '] + ascii_column(bytes)
    } else {
        Seq::empty()
    }) + seq!['\n']
}

/// The cells of two runs of bytes, one behind the other, are the cells of
/// the first and behind them the cells of the second: a dump made chunk by
/// chunk is the dump of the whole.
pub proof fn lemma_hex_cells_concat(front: Seq<u8>, back: Seq<u8>, gap: Seq<char>)
    ensures
        hex_cells(front + back, gap) == hex_cells(front, gap) + hex_cells(back, gap),
    decreases back.len(),
{
    if back.len() == 0 {
        assert(front + back =~= front);
        assert(hex_cells(front, gap) + hex_cells(back, gap) =~= hex_cells(front, gap));
    } else {
        lemma_hex_cells_concat(front, back.drop_last(), gap);
        assert((front + back).drop_last() =~= front + back.drop_last());
        assert((front + back).last() == back.last());
        assert(hex_cells(front + back, gap) =~= hex_cells(front, gap) + hex_cells(back, gap));
    }
}

/// The digit for a value below sixteen.
fn hex_digit_of(value: u8) -> (digit: char)
    requires
        value < 16,
    ensures
        digit == hex_digit(value as int),
{
    if value < 10 {
        ('0' as u8 + value) as char
    } else {
        ('A' as u8 + (value - 10)) as char
    }
}

/// Appends the two digits of `byte`.
fn push_hex_pair(out: &mut String, byte: u8)
    ensures
        final(out)@ == old(out)@ + hex_pair(byte),
{
    out.push(hex_digit_of(byte / 16));
    out.push(hex_digit_of(byte % 16));
}

/// Appends each byte as two digits and `gap`.
fn push_hex_cells(out: &mut String, bytes: &[u8], gap: &str)
    ensures
        final(out)@ == old(out)@ + hex_cells(bytes@, gap@),
{
    let mut i: usize = 0;
    while i < bytes.len()
        invariant
            i <= bytes.len(),
            out@ == old(out)@ + hex_cells(bytes@.take(i as int), gap@),
        decreases bytes.len() - i,
    {
        proof {
            assert(bytes@.take(i + 1).drop_last() =~= bytes@.take(i as int));
        }
        push_hex_pair(out, bytes[i]);
        out.append(gap);
        i = i + 1;
    }
    proof {
        assert(bytes@.take(bytes.len() as int) =~= bytes@);
    }
}

/// Appends `count` copies of `c`.
fn push_repeated(out: &mut String, c: char, count: usize)
    ensures
        final(out)@ == old(out)@ + repeated(c, count as int),
{
    let mut i: usize = 0;
    while i < count
        invariant
            i <= count,
            out@ =~= old(out)@ + repeated(c, i as int),
        decreases count - i,
    {
        out.push(c);
        i = i + 1;
    }
}

/// Appends `value` in hexadecimal.
fn push_hex_digits(out: &mut String, value: u64)
    ensures
        final(out)@ == old(out)@ + hex_digits(value as nat),
    decreases value,
{
    if value >= 16 {
        push_hex_digits(out, value / 16);
    }
    out.push(hex_digit_of((value % 16) as u8));
}

/// Sixteen to the power of `exponent`.
spec fn pow16(exponent: nat) -> nat
    decreases exponent,
{
    if exponent == 0 {
        1
    } else {
        16 * pow16((exponent - 1) as nat)
    }
}

/// A number below the `count`-th power of sixteen has `count` digits at most.
proof fn lemma_hex_digits_len(value: nat, count: nat)
    requires
        1 <= count,
        value < pow16(count),
    ensures
        1 <= hex_digits(value).len() <= count,
    decreases count,
{
    if value >= 16 {
        assert(pow16(1) == 16) by {
            reveal_with_fuel(pow16, 2);
        }
        lemma_hex_digits_len(value / 16, (count - 1) as nat);
    }
}

/// The number of hexadecimal digits of `value`.
fn hex_len(value: u64) -> (len: usize)
    ensures
        len == hex_digits(value as nat).len(),
        1 <= len <= 16,
{
    proof {
        assert(pow16(16) == 0x1_0000_0000_0000_0000) by {
            reveal_with_fuel(pow16, 17);
        }
        lemma_hex_digits_len(value as nat, 16);
    }
    let mut len: usize = 1;
    let mut rest: u64 = value;
    while rest >= 16
        invariant
            1 <= len,
            1 <= hex_digits(rest as nat).len(),
            hex_digits(value as nat).len() <= 16,
            hex_digits(value as nat).len() == hex_digits(rest as nat).len() + len - 1,
        decreases rest,
    {
        rest = rest / 16;
        len = len + 1;
        assert(hex_digits(rest as nat).len() >= 1);
    }
    len
}

/// The bytes as one run of upper-case hexadecimal digits, two for each byte
/// and nothing between them.
pub fn format_inline(bytes: &[u8]) -> (text: String)
    ensures
        text@ == hex_cells(bytes@, Seq::empty()),
{
    let mut text: String = String::new();
    proof {
        reveal_strlit("");
        assert(""@ =~= Seq::<char>::empty());
    }
    push_hex_cells(&mut text, bytes, "");
    proof {
        assert(text@ =~= hex_cells(bytes@, Seq::empty()));
    }
    text
}

/// The width of the line numbers for a slice of `slice_len` bytes.
pub fn line_number_width(slice_len: u64) -> (width: usize)
    ensures
        width == number_width(slice_len),
{
    hex_len(slice_len / 16)
}

/// Appends the column of line numbers.
fn push_number_column(out: &mut String, line_number: u64, width: usize)
    ensures
        final(out)@ == old(out)@ + number_column(line_number as nat, width as nat),
{
    out.push('0');
    out.push('x');
    let digits: usize = hex_len(line_number);
    if digits < width {
        push_repeated(out, '0', width - digits);
    }
    push_hex_digits(out, line_number);
    push_repeated(out, ' ', 2);
    proof {
        assert(out@ =~= old(out)@ + number_column(line_number as nat, width as nat));
    }
}

/// Appends the text column.
fn push_ascii_column(out: &mut String, bytes: &[u8])
    ensures
        final(out)@ == old(out)@ + ascii_column(bytes@),
{
    let mut i: usize = 0;
    while i < bytes.len()
        invariant
            i <= bytes.len(),
            out@ =~= old(out)@ + ascii_column(bytes@.take(i as int)),
        decreases bytes.len() - i,
    {
        let byte: u8 = bytes[i];
        let c: char = if 0x20 <= byte && byte <= 0x7e {
            byte as char
        } else {
            '.'
        };
        out.push(c);
        proof {
            assert(ascii_column(bytes@.take(i + 1)) =~= ascii_column(
                bytes@.take(i as int),
            ).push(c));
        }
        i = i + 1;
    }
    proof {
        assert(bytes@.take(bytes.len() as int) =~= bytes@);
    }
}

/// One line of the table, as `table_line` describes it.
pub fn format_line(
    line_number: u64,
    width: usize,
    bytes: &[u8],
    display_line_numbers: bool,
    display_ascii: bool,
) -> (line: String)
    ensures
        line@ == table_line(
            line_number as nat,
            width as nat,
            bytes@,
            display_line_numbers,
            display_ascii,
        ),
{
    let mut line: String = String::new();
    if display_line_numbers {
        push_number_column(&mut line, line_number, width);
    }
    proof {
        reveal_strlit(" ");
        assert(" "@ =~= seq![' ']);
    }
    push_hex_cells(&mut line, bytes, " ");
    if bytes.len() < LINE_LENGTH {
        push_repeated(&mut line, ' ', 3 * (LINE_LENGTH - bytes.len()));
    }
    if display_ascii {
        line.push(' ');
        push_ascii_column(&mut line, bytes);
    }
    line.push('\n');
    proof {
        assert(line@ =~= table_line(
            line_number as nat,
            width as nat,
            bytes@,
            display_line_numbers,
            display_ascii,
        ));
    }
    line
}

} // verus!
