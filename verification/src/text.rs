//! Building blocks of the text that the indicators send to a terminal.
//!
//! Every piece of output is described as a sequence of characters by a spec
//! function, and built by an executable function that appends exactly that
//! sequence to a `String`.

use vstd::prelude::*;
use vstd::string::*;
use vstd::utf8::*;

verus! {

/// `n` copies of the character `c`.
pub open spec fn repeated(c: char, n: nat) -> Seq<char> {
    Seq::new(n, |i: int| c)
}

/// `n` blanks.
pub open spec fn spaces(n: nat) -> Seq<char> {
    repeated(' ', n)
}

/// `n` backspace characters, each of which moves the cursor one cell to the left.
pub open spec fn backspaces(n: nat) -> Seq<char> {
    repeated('\x08', n)
}

/// The character that stands for the digit `d`.
pub open spec fn digit(d: nat) -> char
    recommends
        d < 10,
{
    seq!['0', '1', '2', '3', '4', '5', '6', '7', '8', '9'][d as int]
}

/// The decimal numeral of `n`, without sign or leading zeros.
pub open spec fn decimal(n: nat) -> Seq<char>
    decreases n,
{
    if n < 10 {
        seq![digit(n)]
    } else {
        decimal(n / 10).push(digit(n % 10))
    }
}

/// `text` moved to the right edge of a field of `width` characters; a text
/// that is wider than the field is left as it is.
pub open spec fn right_aligned(text: Seq<char>, width: nat) -> Seq<char> {
    if text.len() < width {
        spaces((width - text.len()) as nat) + text
    } else {
        text
    }
}

/// The ANSI sequence that moves the cursor `n` cells to the left.
pub open spec fn cursor_left(n: nat) -> Seq<char> {
    seq!['\x1b', '['] + decimal(n) + seq!['D']
}

/// The ANSI sequence that erases from the cursor to the end of the line.
pub open spec fn erase_to_end() -> Seq<char> {
    seq!['\x1b', '[', 'K']
}

/// The output that wipes the line and returns the cursor to its start: by
/// an escape sequence, or by `width` blanks.
pub open spec fn erase_line(vt100: bool, width: nat) -> Seq<char> {
    if vt100 {
        seq!['\r'] + erase_to_end()
    } else {
        seq!['\r'] + spaces(width) + seq!['\r']
    }
}

/// A label as it stands in a rendered line: followed by one blank, or
/// nothing at all where the label is empty.
pub open spec fn spaced(label: Seq<char>) -> Seq<char> {
    if label.len() == 0 {
        Seq::empty()
    } else {
        label.push(' ')
    }
}

/// The length of `s` in bytes of UTF-8, as `str::len` reports it.
pub open spec fn utf8_len(s: Seq<char>) -> nat {
    (encode_utf8(s).len() as usize) as nat
}

/// Whether a text is of a length in bytes that the machine can hold, as
/// every text in memory is.
pub open spec fn fits(text: Seq<char>) -> bool {
    encode_utf8(text).len() <= usize::MAX
}

/// The number of cells that a non-empty label is counted for in a rendered
/// line: its length in bytes and the blank behind it.
pub open spec fn spaced_len(label: Seq<char>) -> nat
    recommends
        label.len() > 0,
{
    utf8_len(label) + 1
}

/// The number of cells that a label is counted for in a rendered line:
/// none where the label is empty, as it then leaves nothing in the line.
pub open spec fn shown_len(label: Seq<char>) -> nat {
    if label.len() == 0 {
        0
    } else {
        spaced_len(label)
    }
}

/// The number of places at which `c` stands in `text`.
pub open spec fn occurrences(text: Seq<char>, c: char) -> nat
    decreases text.len(),
{
    if text.len() == 0 {
        0
    } else {
        occurrences(text.drop_last(), c) + if text.last() == c {
            1nat
        } else {
            0nat
        }
    }
}

/// A character stands in a text of two parts as often as in both parts
/// together.
pub proof fn lemma_occurrences_add(a: Seq<char>, b: Seq<char>, c: char)
    ensures
        occurrences(a + b, c) == occurrences(a, c) + occurrences(b, c),
    decreases b.len(),
{
    if b.len() == 0 {
        assert(a + b =~= a);
    } else {
        assert((a + b).drop_last() =~= a + b.drop_last());
        lemma_occurrences_add(a, b.drop_last(), c);
    }
}

/// A character stands `n` times in `n` copies of itself, and not at all in
/// copies of another.
pub proof fn lemma_occurrences_repeated(d: char, n: nat, c: char)
    ensures
        occurrences(repeated(d, n), c) == if d == c {
            n
        } else {
            0
        },
    decreases n,
{
    if n > 0 {
        assert(repeated(d, n).drop_last() =~= repeated(d, (n - 1) as nat));
        lemma_occurrences_repeated(d, (n - 1) as nat, c);
    }
}

/// A text of two parts has the bytes of the one part and then those of the
/// other.
pub proof fn lemma_encode_utf8_add(a: Seq<char>, b: Seq<char>)
    ensures
        encode_utf8(a + b) == encode_utf8(a) + encode_utf8(b),
    decreases a.len(),
{
    if a.len() == 0 {
        assert(a + b =~= b);
        assert(encode_utf8(a) + encode_utf8(b) =~= encode_utf8(b));
    } else {
        assert((a + b).drop_first() =~= a.drop_first() + b);
        lemma_encode_utf8_add(a.drop_first(), b);
        assert(encode_utf8(a + b) =~= encode_utf8(a) + encode_utf8(b));
    }
}

/// A text has a byte for each of its characters, or more.
pub proof fn lemma_utf8_len_at_least(text: Seq<char>)
    ensures
        encode_utf8(text).len() >= text.len(),
    decreases text.len(),
{
    if text.len() > 0 {
        lemma_utf8_len_at_least(text.drop_first());
    }
}

/// A label is counted for as many cells as it has bytes where it stands in
/// a rendered line, with the blank behind it.
pub proof fn lemma_shown_len(label: Seq<char>)
    requires
        fits(label),
    ensures
        shown_len(label) == encode_utf8(spaced(label)).len(),
        shown_len(label) >= spaced(label).len(),
{
    lemma_utf8_len_at_least(label);
    if label.len() > 0 {
        let blank = seq![' '];
        assert(label.push(' ') =~= label + blank);
        lemma_encode_utf8_add(label, blank);
        assert(is_ascii_chars(blank));
        is_ascii_chars_encode_utf8(blank);
    }
}

/// Repeating a character `a` times and then `b` times repeats it `a + b` times.
pub proof fn lemma_repeated_add(c: char, a: nat, b: nat)
    ensures
        repeated(c, a) + repeated(c, b) == repeated(c, a + b),
{
    assert(repeated(c, a) + repeated(c, b) =~= repeated(c, a + b));
}

/// A decimal numeral has at least one character, and all of them are digits.
pub proof fn lemma_decimal_digits(n: nat)
    ensures
        decimal(n).len() >= 1,
        forall|i: int| 0 <= i < decimal(n).len() ==> '0' <= #[trigger] decimal(n)[i] <= '9',
    decreases n,
{
    if n >= 10 {
        lemma_decimal_digits(n / 10);
    }
}

/// A number below 10 has one digit, one below 100 has two, and one below
/// 1000 has three.
pub proof fn lemma_decimal_len(n: nat)
    ensures
        n < 10 ==> decimal(n).len() == 1,
        10 <= n < 100 ==> decimal(n).len() == 2,
        100 <= n < 1000 ==> decimal(n).len() == 3,
{
    reveal_with_fuel(decimal, 3);
}

/// Appends `n` copies of the one-character text `unit` to `out`.
pub fn push_repeated(out: &mut String, unit: &str, n: usize)
    requires
        unit@.len() == 1,
    ensures
        final(out)@ == old(out)@ + repeated(unit@[0], n as nat),
{
    let mut i: usize = 0;
    while i < n
        invariant
            i <= n,
            unit@.len() == 1,
            out@ == old(out)@ + repeated(unit@[0], i as nat),
        decreases n - i,
    {
        out.append(unit);
        i = i + 1;
    }
}

/// Appends `n` blanks to `out`.
pub fn push_spaces(out: &mut String, n: usize)
    ensures
        final(out)@ == old(out)@ + spaces(n as nat),
{
    proof {
        reveal_strlit(" ");
    }
    push_repeated(out, " ", n);
}

/// Appends `n` backspace characters to `out`.
pub fn push_backspaces(out: &mut String, n: usize)
    ensures
        final(out)@ == old(out)@ + backspaces(n as nat),
{
    proof {
        reveal_strlit("\x08");
    }
    push_repeated(out, "\x08", n);
}

/// The one-character text of the digit `d`.
pub fn digit_text(d: u8) -> (text: &'static str)
    requires
        d < 10,
    ensures
        text@ == seq![digit(d as nat)],
{
    proof {
        reveal_strlit("0");
        reveal_strlit("1");
        reveal_strlit("2");
        reveal_strlit("3");
        reveal_strlit("4");
        reveal_strlit("5");
        reveal_strlit("6");
        reveal_strlit("7");
        reveal_strlit("8");
        reveal_strlit("9");
    }
    let text = match d {
        0 => "0",
        1 => "1",
        2 => "2",
        3 => "3",
        4 => "4",
        5 => "5",
        6 => "6",
        7 => "7",
        8 => "8",
        _ => "9",
    };
    assert(text@ =~= seq![digit(d as nat)]);
    text
}

/// Appends the decimal numeral of `n` to `out`.
pub fn push_decimal(out: &mut String, n: u128)
    ensures
        final(out)@ == old(out)@ + decimal(n as nat),
    decreases n,
{
    if n >= 10 {
        push_decimal(out, n / 10);
    }
    let last = digit_text((n % 10) as u8);
    out.append(last);
    assert(out@ =~= old(out)@ + decimal(n as nat));
}

/// The number of characters in the decimal numeral of `n`.
pub fn decimal_len(n: u128) -> (len: u128)
    ensures
        len == decimal(n as nat).len(),
{
    let mut rest: u128 = n;
    let mut len: u128 = 1;
    while rest >= 10
        invariant
            len >= 1,
            len + rest <= n + 1,
            decimal(n as nat).len() == decimal(rest as nat).len() + len - 1,
        decreases rest,
    {
        rest = rest / 10;
        len = len + 1;
    }
    len
}

/// Appends the decimal numeral of `n` to `out`, moved to the right edge of a
/// field of `width` characters.
pub fn push_right_aligned(out: &mut String, n: u128, width: usize)
    ensures
        final(out)@ == old(out)@ + right_aligned(decimal(n as nat), width as nat),
{
    let len: u128 = decimal_len(n);
    if len < width as u128 {
        push_spaces(out, width - len as usize);
    }
    push_decimal(out, n);
    assert(out@ =~= old(out)@ + right_aligned(decimal(n as nat), width as nat));
}

/// Appends the sequence that moves the cursor `n` cells to the left.
pub fn push_cursor_left(out: &mut String, n: u128)
    ensures
        final(out)@ == old(out)@ + cursor_left(n as nat),
{
    proof {
        reveal_strlit("\x1b[");
        reveal_strlit("D");
    }
    out.append("\x1b[");
    push_decimal(out, n);
    out.append("D");
    assert(out@ =~= old(out)@ + cursor_left(n as nat));
}

/// Appends the sequence that erases from the cursor to the end of the line.
pub fn push_erase_to_end(out: &mut String)
    ensures
        final(out)@ == old(out)@ + erase_to_end(),
{
    proof {
        reveal_strlit("\x1b[K");
    }
    out.append("\x1b[K");
    assert(out@ =~= old(out)@ + erase_to_end());
}

/// Appends as many blanks as a label is counted for in a rendered line.
pub fn push_blanks_for(out: &mut String, label: &str)
    ensures
        final(out)@ == old(out)@ + spaces(shown_len(label@)),
{
    if !label.is_empty() {
        let length: usize = label.len();
        push_spaces(out, length);
        push_spaces(out, 1);
        proof {
            lemma_repeated_add(' ', length as nat, 1);
        }
    }
    assert(out@ =~= old(out)@ + spaces(shown_len(label@)));
}

/// Appends a label as it stands in a rendered line.
pub fn push_spaced(out: &mut String, label: &str)
    ensures
        final(out)@ == old(out)@ + spaced(label@),
{
    if !label.is_empty() {
        proof {
            reveal_strlit(" ");
        }
        out.append(label);
        out.append(" ");
    }
    assert(out@ =~= old(out)@ + spaced(label@));
}

} // verus!
