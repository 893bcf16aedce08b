//! A model of the line of a terminal on which an indicator is drawn, and what
//! the output of the indicators does to it.
//!
//! The model knows the characters that the indicators send: those that are
//! printed, the backspace, the carriage return, and the two escape sequences
//! of `crate::text`. It has one line and no right margin. The output for a
//! terminal without escape sequences holds none, so the one model stands for
//! both kinds of terminal.
//!
//! Every character that is not a control character is printed into one
//! cell. Characters that a terminal gives two cells or none are outside the
//! model. The indicators count a label in bytes: a label of printable ASCII
//! has a byte for each cell, any other has more bytes than cells.
//!
//! Nothing here is executable. The indicators state what text they return;
//! this module proves what that text does on the screen.

use crate::meter::MeterView;
use crate::text::{
    backspaces, cursor_left, decimal, digit, erase_line, erase_to_end, fits,
    lemma_encode_utf8_add, lemma_shown_len, shown_len, spaced, spaces, utf8_len,
};
use vstd::prelude::*;
use vstd::utf8::{encode_utf8, is_ascii_chars, is_ascii_chars_encode_utf8};

verus! {

/// How far into an escape sequence the terminal has read.
pub enum Pending {
    /// Not at all.
    Nothing,
    /// It has read the escape character.
    Escape,
    /// It has read the escape character, the bracket, and a number so far.
    Count(nat),
}

/// One line of a terminal.
pub struct Line {
    /// The characters on the line, from its first column on. What lies
    /// beyond them is blank.
    pub cells: Seq<char>,
    /// The column of the cursor, counted from 0.
    pub cursor: nat,
    /// The escape sequence that the terminal is reading, if any.
    pub pending: Pending,
}

/// Whether `c` is printed into a cell: every character but the control
/// characters.
pub open spec fn is_printed_char(c: char) -> bool {
    ' ' <= c && !('\x7f' <= c <= '\u{9f}')
}

/// Whether all of `text` is printed, each character into a cell of its own.
pub open spec fn is_printed(text: Seq<char>) -> bool {
    forall|i: int| 0 <= i < text.len() ==> is_printed_char(#[trigger] text[i])
}

/// Whether `c` is the blank or a visible character of ASCII: it is printed,
/// and it is one byte.
pub open spec fn is_plain_char(c: char) -> bool {
    ' ' <= c <= '~'
}

/// Whether all of `text` is blanks and visible characters of ASCII.
pub open spec fn is_plain(text: Seq<char>) -> bool {
    forall|i: int| 0 <= i < text.len() ==> is_plain_char(#[trigger] text[i])
}

/// Whether both labels of a meter are printed, and of a length that the
/// machine can hold. Such labels take no more cells than they have bytes.
pub open spec fn labels_printed(meter: MeterView) -> bool {
    &&& is_printed(meter.label)
    &&& is_printed(meter.rlabel)
    &&& fits(meter.label)
    &&& fits(meter.rlabel)
}

/// Whether both labels of a meter are blanks and visible characters of
/// ASCII, and of a length that the machine can hold. Such labels take as
/// many cells as they have bytes.
pub open spec fn labels_plain(meter: MeterView) -> bool {
    &&& is_plain(meter.label)
    &&& is_plain(meter.rlabel)
    &&& meter.label.len() <= usize::MAX
    &&& meter.rlabel.len() <= usize::MAX
}

/// Whether `c` is a decimal digit.
pub open spec fn is_digit(c: char) -> bool {
    '0' <= c <= '9'
}

/// The number that the decimal digit `c` stands for.
pub open spec fn digit_value(c: char) -> nat {
    (c as int - '0' as int) as nat
}

impl Line {
    /// A line that shows `text` and nothing else, with the cursor behind
    /// it.
    pub open spec fn showing(text: Seq<char>) -> Line {
        Line { cells: text, cursor: text.len(), pending: Pending::Nothing }
    }

    /// An empty line with the cursor at its start.
    pub open spec fn blank() -> Line {
        Line { cells: Seq::empty(), cursor: 0, pending: Pending::Nothing }
    }

    /// The character in column `i`.
    pub open spec fn cell(self, i: int) -> char {
        if 0 <= i < self.cells.len() {
            self.cells[i]
        } else {
            ' '
        }
    }

    /// Whether two lines show the same with the cursor in the same column.
    pub open spec fn looks_like(self, other: Line) -> bool {
        &&& self.cursor == other.cursor
        &&& self.pending == other.pending
        &&& forall|i: int| self.cell(i) == other.cell(i)
    }

    /// The line with the cursor `n` columns further left, or at the start
    /// of the line if that is nearer.
    pub open spec fn moved_left(self, n: nat) -> Line {
        Line {
            cursor: if n <= self.cursor {
                (self.cursor - n) as nat
            } else {
                0
            },
            pending: Pending::Nothing,
            ..self
        }
    }

    /// The line with `c` printed at the cursor, and the cursor one column
    /// further right.
    pub open spec fn printed(self, c: char) -> Line {
        let reached = if self.cursor <= self.cells.len() {
            self.cells
        } else {
            self.cells + spaces((self.cursor - self.cells.len()) as nat)
        };
        Line {
            cells: if self.cursor < reached.len() {
                reached.update(self.cursor as int, c)
            } else {
                reached.push(c)
            },
            cursor: self.cursor + 1,
            pending: Pending::Nothing,
        }
    }

    /// The line with nothing left from the cursor on.
    pub open spec fn erased_to_end(self) -> Line {
        Line {
            cells: if self.cursor < self.cells.len() {
                self.cells.take(self.cursor as int)
            } else {
                self.cells
            },
            pending: Pending::Nothing,
            ..self
        }
    }

    /// The line after the terminal has read `c`.
    pub open spec fn put(self, c: char) -> Line {
        match self.pending {
            Pending::Nothing => {
                if c == '\x1b' {
                    Line { pending: Pending::Escape, ..self }
                } else if c == '\r' {
                    Line { cursor: 0, ..self }
                } else if c == '\x08' {
                    self.moved_left(1)
                } else if is_printed_char(c) {
                    self.printed(c)
                } else {
                    self
                }
            },
            Pending::Escape => {
                if c == '[' {
                    Line { pending: Pending::Count(0), ..self }
                } else {
                    Line { pending: Pending::Nothing, ..self }
                }
            },
            Pending::Count(n) => {
                if is_digit(c) {
                    Line { pending: Pending::Count(10 * n + digit_value(c)), ..self }
                } else if c == 'D' {
                    self.moved_left(
                        if n == 0 {
                            1
                        } else {
                            n
                        },
                    )
                } else if c == 'K' {
                    self.erased_to_end()
                } else {
                    Line { pending: Pending::Nothing, ..self }
                }
            },
        }
    }

    /// The line after the terminal has read `text`.
    pub open spec fn feed(self, text: Seq<char>) -> Line
        decreases text.len(),
    {
        if text.len() == 0 {
            self
        } else {
            self.feed(text.drop_last()).put(text.last())
        }
    }
}

/// Reading a text of two parts is reading the one part and then the other.
pub proof fn lemma_feed_add(line: Line, a: Seq<char>, b: Seq<char>)
    ensures
        line.feed(a + b) == line.feed(a).feed(b),
    decreases b.len(),
{
    if b.len() == 0 {
        assert(a + b =~= a);
    } else {
        assert((a + b).drop_last() =~= a + b.drop_last());
        lemma_feed_add(line, a, b.drop_last());
    }
}

/// Reading one character is putting it.
pub proof fn lemma_feed_one(line: Line, c: char)
    ensures
        line.feed(seq![c]) == line.put(c),
{
    assert(seq![c].drop_last() =~= Seq::<char>::empty());
    reveal_with_fuel(Line::feed, 2);
}

/// Printed text overwrites the cells from the cursor on, one for each of
/// its characters, and leaves the cursor behind the last of them.
pub proof fn lemma_feed_printed(line: Line, text: Seq<char>)
    requires
        line.pending == Pending::Nothing,
        is_printed(text),
    ensures
        line.feed(text).cursor == line.cursor + text.len(),
        line.feed(text).pending == Pending::Nothing,
        forall|i: int|
            line.feed(text).cell(i) == if line.cursor <= i < line.cursor + text.len() {
                text[i - line.cursor]
            } else {
                line.cell(i)
            },
    decreases text.len(),
{
    if text.len() > 0 {
        let before = line.feed(text.drop_last());
        lemma_feed_printed(line, text.drop_last());
        assert(is_printed_char(text.last()));
        let c = text.last();
        assert(c != '\x1b' && c != '\r' && c != '\x08');
        assert(line.feed(text) == before.printed(c));
        assert forall|i: int|
            line.feed(text).cell(i) == if line.cursor <= i < line.cursor + text.len() {
                text[i - line.cursor]
            } else {
                line.cell(i)
            } by {
            assert(before.cell(i) == if line.cursor <= i < line.cursor + text.len() - 1 {
                text.drop_last()[i - line.cursor]
            } else {
                line.cell(i)
            });
        }
    }
}

/// Backspaces move the cursor to the left, one column each, and change
/// nothing on the line.
pub proof fn lemma_feed_backspaces(line: Line, n: nat)
    requires
        line.pending == Pending::Nothing,
    ensures
        line.feed(backspaces(n)) == (if n == 0 {
            line
        } else {
            line.moved_left(n)
        }),
    decreases n,
{
    if n > 0 {
        assert(backspaces(n).drop_last() =~= backspaces((n - 1) as nat));
        lemma_feed_backspaces(line, (n - 1) as nat);
    }
}

/// A decimal numeral inside an escape sequence is read as the number that
/// it stands for.
pub proof fn lemma_feed_count(line: Line, n: nat)
    requires
        line.pending == Pending::Count(0),
    ensures
        line.feed(decimal(n)) == (Line { pending: Pending::Count(n), ..line }),
    decreases n,
{
    if n < 10 {
        lemma_feed_one(line, digit(n));
    } else {
        assert(decimal(n).drop_last() =~= decimal(n / 10));
        lemma_feed_count(line, n / 10);
    }
}

/// The sequence that moves the cursor `n` cells to the left does so, and
/// changes nothing on the line.
pub proof fn lemma_feed_cursor_left(line: Line, n: nat)
    requires
        line.pending == Pending::Nothing,
        n > 0,
    ensures
        line.feed(cursor_left(n)) == line.moved_left(n),
{
    let opened = Line { pending: Pending::Count(0), ..line };
    let intro = seq!['\x1b', '['];
    assert(line.feed(intro) == opened) by {
        assert(intro.drop_last() =~= seq!['\x1b']);
        lemma_feed_one(line, '\x1b');
    }
    lemma_feed_add(line, intro, decimal(n));
    lemma_feed_count(opened, n);
    lemma_feed_add(line, intro + decimal(n), seq!['D']);
    lemma_feed_one(line.feed(intro + decimal(n)), 'D');
}

/// The sequence that erases to the end of the line does so, and leaves the
/// cursor where it is.
pub proof fn lemma_feed_erase_to_end(line: Line)
    requires
        line.pending == Pending::Nothing,
    ensures
        line.feed(erase_to_end()) == line.erased_to_end(),
{
    let intro = seq!['\x1b', '['];
    assert(erase_to_end() =~= intro + seq!['K']);
    assert(line.feed(intro) == (Line { pending: Pending::Count(0), ..line })) by {
        assert(intro.drop_last() =~= seq!['\x1b']);
        lemma_feed_one(line, '\x1b');
    }
    lemma_feed_add(line, intro, seq!['K']);
    lemma_feed_one(line.feed(intro), 'K');
}

/// Blanks and visible characters of ASCII are printed.
pub proof fn lemma_plain_printed(text: Seq<char>)
    requires
        is_plain(text),
    ensures
        is_printed(text),
{
    assert forall|i: int| 0 <= i < text.len() implies is_printed_char(#[trigger] text[i]) by {
        assert(is_plain_char(text[i]));
    }
}

/// A label as it stands in a line is of blanks and visible characters of
/// ASCII if the label is, and is printed if the label is.
pub proof fn lemma_spaced_plain(label: Seq<char>)
    ensures
        is_plain(label) ==> is_plain(spaced(label)),
        is_printed(label) ==> is_printed(spaced(label)),
{
}

/// A text of blanks and visible characters of ASCII has a byte for each of
/// its characters.
pub proof fn lemma_plain_bytes(text: Seq<char>)
    requires
        is_plain(text),
    ensures
        encode_utf8(text).len() == text.len(),
{
    assert(is_ascii_chars(text)) by {
        assert forall|i: int| 0 <= i < text.len() implies '\0' <= #[trigger] text[i]
            <= '\u{7f}' by {
            assert(is_plain_char(text[i]));
        }
    }
    is_ascii_chars_encode_utf8(text);
}

/// A text of blanks and visible characters of ASCII, of a length that the
/// machine can hold, is counted for as many bytes as it has characters.
pub proof fn lemma_plain_utf8_len(text: Seq<char>)
    requires
        is_plain(text),
        text.len() <= usize::MAX,
    ensures
        utf8_len(text) == text.len(),
        fits(text),
{
    lemma_plain_bytes(text);
}

/// Labels of blanks and visible characters of ASCII are printed.
pub proof fn lemma_labels_plain_printed(meter: MeterView)
    requires
        labels_plain(meter),
    ensures
        labels_printed(meter),
{
    lemma_plain_printed(meter.label);
    lemma_plain_printed(meter.rlabel);
    lemma_plain_utf8_len(meter.label);
    lemma_plain_utf8_len(meter.rlabel);
}

/// The width that a line is counted for is the number of its bytes.
///
/// The line is a label, glyphs of ASCII, and a trailing label. The cells
/// that the two labels are counted for and the glyphs are together as many
/// as the line has bytes, which is no fewer than it has characters, and as
/// many where the labels are of ASCII too.
pub proof fn lemma_line_width(label: Seq<char>, glyphs: Seq<char>, rlabel: Seq<char>)
    requires
        is_plain(glyphs),
        fits(label),
        fits(rlabel),
    ensures
        shown_len(label) + glyphs.len() + shown_len(rlabel) == encode_utf8(
            spaced(label) + glyphs + spaced(rlabel),
        ).len(),
        shown_len(label) + glyphs.len() + shown_len(rlabel) >= (spaced(label) + glyphs + spaced(
            rlabel,
        )).len(),
        is_plain(label) && is_plain(rlabel) ==> shown_len(label) + glyphs.len() + shown_len(
            rlabel,
        ) == (spaced(label) + glyphs + spaced(rlabel)).len(),
{
    lemma_shown_len(label);
    lemma_shown_len(rlabel);
    lemma_plain_bytes(glyphs);
    lemma_encode_utf8_add(spaced(label) + glyphs, spaced(rlabel));
    lemma_encode_utf8_add(spaced(label), glyphs);
    if is_plain(label) && is_plain(rlabel) {
        lemma_plain_bytes(label);
        lemma_plain_bytes(rlabel);
    }
}

/// Printed text on an empty line is what the line shows.
pub proof fn lemma_feed_blank(text: Seq<char>)
    requires
        is_printed(text),
    ensures
        Line::blank().feed(text) == Line::showing(text),
    decreases text.len(),
{
    if text.len() == 0 {
        assert(text =~= Seq::<char>::empty());
    } else {
        lemma_feed_blank(text.drop_last());
        let c = text.last();
        assert(is_printed_char(c));
        assert(Line::showing(text.drop_last()).printed(c).cells =~= text);
    }
}

/// The carriage return takes the cursor to the start of the line.
pub proof fn lemma_feed_return(line: Line)
    requires
        line.pending == Pending::Nothing,
    ensures
        line.feed(seq!['\r']) == (Line { cursor: 0, ..line }),
{
    lemma_feed_one(line, '\r');
}

/// With the cursor behind a trailing label of ASCII, the output that goes
/// back over the label leaves the cursor where the label begins, on a
/// terminal of either kind.
pub proof fn lemma_back_over_label(meter: MeterView, line: Line)
    requires
        line.pending == Pending::Nothing,
        is_plain(meter.rlabel),
        meter.rlabel.len() <= usize::MAX,
        spaced(meter.rlabel).len() <= line.cursor,
    ensures
        line.feed(meter.back_text()) == (Line {
            cursor: (line.cursor - spaced(meter.rlabel).len()) as nat,
            ..line
        }),
{
    if meter.rlabel.len() > 0 {
        lemma_plain_utf8_len(meter.rlabel);
        if meter.have_vt100 {
            lemma_feed_cursor_left(line, utf8_len(meter.rlabel) + 1);
        } else {
            lemma_feed_backspaces(line, utf8_len(meter.rlabel) + 1);
        }
    }
}

/// A redraw in place leaves the line as if it had been written anew.
///
/// The line shows some text, then glyphs, then the trailing label, all of
/// them blanks and visible characters of ASCII, with the cursor at the end.
/// The output that goes back over the trailing label and the glyphs and
/// writes new glyphs of the same width and the trailing label again leaves
/// the line showing the same text, the new glyphs and the trailing label,
/// with the cursor at the end: on a terminal that understands escape
/// sequences as on one that does not.
pub proof fn lemma_redraw_in_place(
    meter: MeterView,
    before: Seq<char>,
    old_glyphs: Seq<char>,
    new_glyphs: Seq<char>,
)
    requires
        is_plain(before),
        is_plain(old_glyphs),
        is_plain(new_glyphs),
        is_plain(meter.rlabel),
        meter.rlabel.len() <= usize::MAX,
        old_glyphs.len() == new_glyphs.len(),
    ensures
        Line::showing(before + old_glyphs + spaced(meter.rlabel)).feed(
            meter.back_text() + backspaces(old_glyphs.len()) + new_glyphs + spaced(meter.rlabel),
        ).looks_like(Line::showing(before + new_glyphs + spaced(meter.rlabel))),
{
    let label = spaced(meter.rlabel);
    let shown = Line::showing(before + old_glyphs + label);
    let back = meter.back_text();
    let over = backspaces(old_glyphs.len());
    let fresh = new_glyphs + label;
    assert(back + over + new_glyphs + label =~= (back + over) + fresh);
    lemma_feed_add(shown, back + over, fresh);
    lemma_feed_add(shown, back, over);
    lemma_back_over_label(meter, shown);
    let at_label = shown.feed(back);
    lemma_feed_backspaces(at_label, old_glyphs.len());
    let at_glyphs = at_label.feed(over);
    assert(at_glyphs == (Line { cursor: before.len(), ..shown }));
    lemma_plain_printed(fresh);
    lemma_feed_printed(at_glyphs, fresh);
    let done = at_glyphs.feed(fresh);
    let wanted = Line::showing(before + new_glyphs + label);
    assert forall|i: int| done.cell(i) == wanted.cell(i) by {
        if before.len() <= i < before.len() + fresh.len() {
            assert(done.cell(i) == fresh[i - before.len()]);
        } else {
            assert(done.cell(i) == shown.cell(i));
        }
    }
}

/// Erasing the trailing label leaves the line as if the label had never
/// been written, with the cursor where the label began: on a terminal that
/// understands escape sequences as on one that does not.
pub proof fn lemma_erase_label(meter: MeterView, before: Seq<char>)
    requires
        is_plain(before),
        is_plain(meter.rlabel),
        meter.rlabel.len() <= usize::MAX,
    ensures
        Line::showing(before + spaced(meter.rlabel)).feed(meter.erase_text()).looks_like(
            Line::showing(before),
        ),
{
    let label = spaced(meter.rlabel);
    let shown = Line::showing(before + label);
    let back = meter.back_text();
    let wanted = Line::showing(before);
    if meter.rlabel.len() == 0 {
        assert(before + label =~= before);
    } else {
        lemma_plain_utf8_len(meter.rlabel);
        lemma_back_over_label(meter, shown);
        let at_label = shown.feed(back);
        assert(at_label == (Line { cursor: before.len(), ..shown }));
        if meter.have_vt100 {
            lemma_feed_add(shown, back, erase_to_end());
            lemma_feed_erase_to_end(at_label);
            let done = at_label.erased_to_end();
            assert(done.cells =~= before);
        } else {
            let blanks = spaces(label.len());
            lemma_feed_add(shown, back + blanks, back);
            lemma_feed_add(shown, back, blanks);
            lemma_feed_printed(at_label, blanks);
            let blanked = at_label.feed(blanks);
            lemma_back_over_label(meter, blanked);
            let done = blanked.feed(back);
            assert(done == shown.feed(meter.erase_text()));
            assert forall|i: int| done.cell(i) == wanted.cell(i) by {
                if before.len() <= i < before.len() + blanks.len() {
                    assert(blanked.cell(i) == blanks[i - before.len()]);
                } else {
                    assert(blanked.cell(i) == at_label.cell(i));
                }
            }
        }
    }
}

/// Hiding the line leaves it empty with the cursor at its start: by the
/// escape sequence, or by as many blanks as the line is long, or more.
pub proof fn lemma_erase_line(text: Seq<char>, vt100: bool, width: nat)
    requires
        vt100 || text.len() <= width,
    ensures
        Line::showing(text).feed(erase_line(vt100, width)).looks_like(Line::blank()),
{
    let shown = Line::showing(text);
    let home = seq!['\r'];
    lemma_feed_return(shown);
    let at_start = shown.feed(home);
    if vt100 {
        lemma_feed_add(shown, home, erase_to_end());
        lemma_feed_erase_to_end(at_start);
        let done = at_start.erased_to_end();
        assert(done == shown.feed(erase_line(vt100, width)));
        assert(done.cells =~= Seq::<char>::empty());
    } else {
        let blanks = spaces(width);
        lemma_feed_add(shown, home + blanks, home);
        lemma_feed_add(shown, home, blanks);
        lemma_feed_printed(at_start, blanks);
        let blanked = at_start.feed(blanks);
        lemma_feed_return(blanked);
        let done = blanked.feed(home);
        assert(done == shown.feed(erase_line(vt100, width)));
        assert forall|i: int| done.cell(i) == Line::blank().cell(i) by {
            if 0 <= i < width {
                assert(blanked.cell(i) == blanks[i]);
            } else {
                assert(blanked.cell(i) == at_start.cell(i));
            }
        }
    }
}

/// Two lines that look the same still do after the terminal has read the
/// same character.
pub proof fn lemma_put_looks_like(one: Line, other: Line, c: char)
    requires
        one.looks_like(other),
    ensures
        one.put(c).looks_like(other.put(c)),
{
    let a = one.put(c);
    let b = other.put(c);
    assert forall|i: int| a.cell(i) == b.cell(i) by {
        assert(one.cell(i) == other.cell(i));
    }
}

/// Two lines that look the same still do after the terminal has read the
/// same text.
pub proof fn lemma_feed_looks_like(one: Line, other: Line, text: Seq<char>)
    requires
        one.looks_like(other),
    ensures
        one.feed(text).looks_like(other.feed(text)),
    decreases text.len(),
{
    if text.len() > 0 {
        lemma_feed_looks_like(one, other, text.drop_last());
        lemma_put_looks_like(one.feed(text.drop_last()), other.feed(text.drop_last()), text.last());
    }
}

/// A line that is hidden and then written anew shows the new text and
/// nothing of the old.
pub proof fn lemma_erase_then_show(
    old_text: Seq<char>,
    vt100: bool,
    width: nat,
    new_text: Seq<char>,
)
    requires
        vt100 || old_text.len() <= width,
        is_printed(new_text),
    ensures
        Line::showing(old_text).feed(erase_line(vt100, width)).feed(new_text).looks_like(
            Line::showing(new_text),
        ),
{
    lemma_erase_line(old_text, vt100, width);
    lemma_feed_looks_like(
        Line::showing(old_text).feed(erase_line(vt100, width)),
        Line::blank(),
        new_text,
    );
    lemma_feed_blank(new_text);
}

} // verus!
