//! A spinner that turns while work of unknown length goes on.

use crate::meter::{redraw_due, MeterView, ProgressMeter, REDRAW_INTERVAL};
use crate::progress::Progress;
use crate::screen::{
    is_plain, is_printed, labels_plain, labels_printed, lemma_erase_label,
    lemma_erase_then_show, lemma_feed_add, lemma_feed_backspaces, lemma_feed_blank,
    lemma_feed_looks_like, lemma_feed_printed, lemma_line_width, lemma_plain_printed,
    lemma_redraw_in_place, lemma_spaced_plain, Line,
};
use crate::text::{
    backspaces, erase_line, fits, push_backspaces, push_blanks_for, push_erase_to_end,
    push_spaced, push_spaces, shown_len, spaced, spaces,
};
use vstd::prelude::*;
use vstd::string::*;
use vstd::utf8::encode_utf8;

verus! {

/// The number of frames that the spinner goes through.
pub const FRAMES: i32 = 4;

/// The glyph of a frame: `|`, `/`, `-`, `\` in this order.
pub open spec fn spinner_glyph(frame: int) -> char
    recommends
        0 <= frame < FRAMES,
{
    seq!['|', '/', '-', '\\'][frame]
}

/// The frame that follows `frame`; the first follows the last.
pub open spec fn next_frame(frame: int) -> int {
    (frame + 1) % (FRAMES as int)
}

/// A progress indicator that spins.
pub struct ProgressSpinner {
    meter: ProgressMeter,
}

/// The spinner as contracts see it. The value of its meter is the frame
/// that it shows.
pub struct SpinnerView {
    /// Labels, frame, time of the last redraw, kind of terminal.
    pub meter: MeterView,
}

impl SpinnerView {
    /// What holds of every spinner: its value is one of its frames, and it
    /// has no ceiling.
    pub open spec fn wf(self) -> bool {
        0 <= self.meter.value < FRAMES && self.meter.max_value == 0
    }

    /// The glyph of the present frame.
    pub open spec fn glyph(self) -> char {
        spinner_glyph(self.meter.value)
    }

    /// The whole line: label, glyph, trailing label.
    pub open spec fn line(self) -> Seq<char> {
        spaced(self.meter.label) + seq![self.glyph(), ' '] + spaced(self.meter.rlabel)
    }

    /// The output that redraws the glyph and the trailing label in place.
    pub open spec fn in_place(self) -> Seq<char> {
        self.meter.back_text() + backspaces(2) + seq![self.glyph(), ' '] + spaced(
            self.meter.rlabel,
        )
    }

    /// The output that ends the work: the trailing label and the glyph are
    /// wiped, and the trailing label stands in place of the glyph, where
    /// nothing will overwrite it.
    pub open spec fn last_words(self) -> Seq<char> {
        self.meter.erase_text() + backspaces(2) + spaces(2) + backspaces(2)
            + self.meter.rlabel.push('\n')
    }

    /// The number of cells that `hide_line` blanks out on a terminal
    /// without escape sequences: as many as the line is counted for, with
    /// its labels as they now are.
    pub open spec fn hidden_width(self) -> nat {
        2 + shown_len(self.meter.label) + shown_len(self.meter.rlabel)
    }

    /// The spinner one frame on.
    pub open spec fn turned(self) -> SpinnerView {
        SpinnerView { meter: MeterView { value: next_frame(self.meter.value), ..self.meter } }
    }

    /// The spinner back at its first frame.
    pub open spec fn rewound(self) -> SpinnerView {
        SpinnerView { meter: MeterView { value: 0, ..self.meter } }
    }

    /// Whether `update` at `now` redraws: whenever the rate limiter lets it.
    pub open spec fn redraws(self, now: nat) -> bool {
        redraw_due(self.meter.timestamp, now)
    }

    /// The spinner after `update` at `now`: one frame on where it redraws,
    /// unchanged where it does not.
    pub open spec fn updated(self, now: nat) -> SpinnerView {
        if self.redraws(now) {
            SpinnerView { meter: self.meter.asked_at(now) }.turned()
        } else {
            self
        }
    }
}

impl View for ProgressSpinner {
    type V = SpinnerView;

    closed spec fn view(&self) -> SpinnerView {
        SpinnerView { meter: self.meter@ }
    }
}

impl ProgressSpinner {
    #[verifier::type_invariant]
    closed spec fn inv(self) -> bool {
        self@.wf()
    }

    /// A spinner without labels at its first frame, made at `now` for a
    /// terminal that understands escape sequences or does not.
    pub fn new(have_vt100: bool, now: u64) -> (spinner: ProgressSpinner)
        ensures
            spinner@ == (SpinnerView {
                meter: MeterView {
                    label: Seq::empty(),
                    rlabel: Seq::empty(),
                    value: 0,
                    max_value: 0,
                    timestamp: now as nat,
                    have_vt100,
                },
            }),
            spinner@.wf(),
    {
        ProgressSpinner { meter: ProgressMeter::new(have_vt100, now) }
    }

    /// A spinner with both labels at its first frame.
    pub fn new_spinner(
        label: &str,
        rlabel: &str,
        have_vt100: bool,
        now: u64,
    ) -> (spinner: ProgressSpinner)
        ensures
            spinner@ == (SpinnerView {
                meter: MeterView {
                    label: label@,
                    rlabel: rlabel@,
                    value: 0,
                    max_value: 0,
                    timestamp: now as nat,
                    have_vt100,
                },
            }),
            spinner@.wf(),
    {
        ProgressSpinner { meter: ProgressMeter::new_meter(label, rlabel, 0, have_vt100, now) }
    }

    /// Appends the glyph of the present frame and the blank behind it.
    fn push_glyph(&self, out: &mut String)
        ensures
            final(out)@ == old(out)@ + seq![self@.glyph(), ' '],
    {
        proof {
            use_type_invariant(self);
            reveal_strlit("| ");
            reveal_strlit("/ ");
            reveal_strlit("- ");
            reveal_strlit("\\ ");
        }
        let glyph = match self.meter.value() {
            0 => "| ",
            1 => "/ ",
            2 => "- ",
            _ => "\\ ",
        };
        out.append(glyph);
        assert(out@ =~= old(out)@ + seq![self@.glyph(), ' ']);
    }

    /// The whole line: the label, the glyph, the trailing label.
    pub fn render(&self) -> (line: String)
        ensures
            line@ == self@.line(),
    {
        let mut line = String::new();
        push_spaced(&mut line, self.meter.label());
        self.push_glyph(&mut line);
        push_spaced(&mut line, self.meter.rlabel());
        assert(line@ =~= self@.line());
        line
    }
}

impl Progress for ProgressSpinner {
    open spec fn meter(&self) -> MeterView {
        self@.meter
    }

    open spec fn line(&self) -> Seq<char> {
        self@.line()
    }

    open spec fn in_place(&self) -> Seq<char> {
        self@.in_place()
    }

    open spec fn last_words(&self) -> Seq<char> {
        self@.last_words()
    }

    open spec fn hidden_width(&self) -> nat {
        self@.hidden_width()
    }

    fn get_value(&self) -> (value: i32)
        ensures
            value == self@.meter.value,
            self@.wf(),
    {
        proof {
            use_type_invariant(self);
        }
        self.meter.value()
    }

    fn get_max_value(&self) -> (max_value: i32)
        ensures
            max_value == self@.meter.max_value,
            self@.wf(),
    {
        proof {
            use_type_invariant(self);
        }
        self.meter.max_value()
    }

    fn set_label(&mut self, label: &str)
        ensures
            final(self)@ == (SpinnerView {
                meter: MeterView { label: label@, ..old(self)@.meter },
            }),
            final(self)@.wf(),
    {
        proof {
            use_type_invariant(&*self);
        }
        self.meter.set_label(label.to_owned());
    }

    fn set_rlabel(&mut self, rlabel: &str)
        ensures
            final(self)@ == (SpinnerView {
                meter: MeterView { rlabel: rlabel@, ..old(self)@.meter },
            }),
            final(self)@.wf(),
    {
        proof {
            use_type_invariant(&*self);
        }
        self.meter.set_rlabel(rlabel.to_owned());
    }

    /// A spinner has no progress to set: it goes back to its first frame,
    /// whatever the value.
    fn set_value(&mut self, value: i32)
        ensures
            final(self)@ == old(self)@.rewound(),
            final(self)@.wf(),
    {
        proof {
            use_type_invariant(&*self);
        }
        self.meter.set_value(0);
    }

    /// A spinner has no ceiling: it stays at zero, whatever the value.
    fn set_max_value(&mut self, value: i32)
        ensures
            final(self)@ == old(self)@,
            final(self)@.wf(),
    {
        proof {
            use_type_invariant(&*self);
        }
        let frame: i32 = self.meter.value();
        self.meter.set_range(frame, 0);
    }

    fn show(&self) -> (out: String)
        ensures
            out@ == self@.line(),
    {
        self.render()
    }

    fn hide_line(&self) -> (out: String)
        ensures
            out@ == erase_line(self@.meter.have_vt100, self@.hidden_width()),
    {
        proof {
            reveal_strlit("\r");
        }
        let mut out = String::from_str("\r");
        if self.meter.have_vt100() {
            push_erase_to_end(&mut out);
        } else {
            push_spaces(&mut out, 2);
            push_blanks_for(&mut out, self.meter.label());
            push_blanks_for(&mut out, self.meter.rlabel());
            out.append("\r");
        }
        assert(out@ =~= erase_line(self@.meter.have_vt100, self@.hidden_width()));
        out
    }

    /// Turns the spinner by one frame and redraws it, if the rate limiter
    /// lets it; `value` plays no part.
    fn update(&mut self, value: i32, now: u64) -> (out: Option<String>)
        ensures
            final(self)@ == old(self)@.updated(now as nat),
            final(self)@.wf(),
            out is Some <==> old(self)@.redraws(now as nat),
            out matches Some(text) ==> text@ == final(self)@.in_place(),
    {
        proof {
            use_type_invariant(&*self);
        }
        if self.meter.need_update(now) {
            self.update_value(value);
            Some(self.update_display())
        } else {
            None
        }
    }

    /// The trailing label and the glyph are wiped, and the trailing label
    /// is written where the glyph was, followed by the end of the line.
    fn finish(&self) -> (out: String)
        ensures
            out@ == self@.last_words(),
    {
        proof {
            reveal_strlit("\n");
        }
        let mut out = self.meter.erase_rlabel();
        push_backspaces(&mut out, 2);
        push_spaces(&mut out, 2);
        push_backspaces(&mut out, 2);
        out.append(self.meter.rlabel());
        out.append("\n");
        assert(out@ =~= self@.last_words());
        out
    }

    /// Turns the spinner by one frame; `value` plays no part.
    fn update_value(&mut self, value: i32)
        ensures
            final(self)@ == old(self)@.turned(),
            final(self)@.wf(),
    {
        proof {
            use_type_invariant(&*self);
        }
        let mut frame: i32 = self.meter.value() + 1;
        if frame >= FRAMES {
            frame = 0;
        }
        self.meter.set_value(frame);
    }

    /// The cursor goes back over the trailing label and the glyph, and the
    /// glyph of the present frame and the trailing label are written.
    fn update_display(&self) -> (out: String)
        ensures
            out@ == self@.in_place(),
    {
        let mut out = self.meter.back_rlabel();
        push_backspaces(&mut out, 2);
        self.push_glyph(&mut out);
        push_spaced(&mut out, self.meter.rlabel());
        assert(out@ =~= self@.in_place());
        out
    }
}

/// Each frame is followed by the next, and the last by the first; and the
/// four frames show four different glyphs, so that every turn is seen.
pub proof fn lemma_spinner_frames(frame: int, other: int)
    requires
        0 <= frame < FRAMES,
        0 <= other < FRAMES,
    ensures
        next_frame(frame) == (if frame == FRAMES - 1 {
            0
        } else {
            frame + 1
        }),
        frame != other ==> spinner_glyph(frame) != spinner_glyph(other),
{
}

/// Every operation leaves a spinner at one of its frames and without a
/// ceiling.
pub proof fn lemma_spinner_stays_wf(spinner: SpinnerView, now: nat)
    requires
        spinner.wf(),
    ensures
        spinner.turned().wf(),
        spinner.rewound().wf(),
        spinner.updated(now).wf(),
{
}

/// An update that the rate limiter lets through shows the frame after the
/// one before, whatever value it was given, and four of them in a row show
/// the same frame again.
pub proof fn lemma_spinner_cycle(spinner: SpinnerView, now: nat)
    requires
        spinner.wf(),
        spinner.redraws(now),
    ensures
        spinner.updated(now).meter.value == next_frame(spinner.meter.value),
        spinner.updated(now).glyph() != spinner.glyph(),
        spinner.updated(now).meter.timestamp == now,
        spinner.turned().turned().turned().turned().meter.value == spinner.meter.value,
{
}

/// Two updates in a row, the second less than the interval between two
/// redraws after the first, redraw at most once.
pub proof fn lemma_spinner_rate_limit(spinner: SpinnerView, first: nat, second: nat)
    requires
        second - first < REDRAW_INTERVAL,
    ensures
        !(spinner.redraws(first) && spinner.updated(first).redraws(second)),
{
}

/// On a clock that does not run backwards, an update redraws whenever the
/// interval between two redraws has passed since the update before it.
pub proof fn lemma_spinner_due_after_interval(spinner: SpinnerView, first: nat, second: nat)
    requires
        spinner.meter.timestamp <= first,
        second - first >= REDRAW_INTERVAL,
    ensures
        spinner.updated(first).redraws(second),
{
}

/// A redraw in place leaves the line as if it had been written anew.
///
/// The terminal looks as if the line of a spinner as it was had been written
/// on an empty line, and reads the redraw of the spinner as it is now, with
/// the same labels. The labels are blanks and visible characters of
/// ASCII, so that they take as many cells as they are counted for. Then the
/// terminal looks as if the line of the spinner as it is now had been written
/// on an empty line, whether it understands escape sequences or not.
pub proof fn lemma_spinner_redraw_on_screen(
    screen: Line,
    earlier: SpinnerView,
    spinner: SpinnerView,
)
    requires
        screen.looks_like(Line::blank().feed(earlier.line())),
        earlier.wf(),
        spinner.wf(),
        labels_plain(spinner.meter),
        earlier.meter.label == spinner.meter.label,
        earlier.meter.rlabel == spinner.meter.rlabel,
    ensures
        screen.feed(spinner.in_place()).looks_like(Line::blank().feed(spinner.line())),
{
    lemma_feed_looks_like(screen, Line::blank().feed(earlier.line()), spinner.in_place());
    lemma_spinner_on_screen(earlier);
    lemma_spinner_on_screen(spinner);
    lemma_spaced_plain(spinner.meter.label);
    lemma_feed_blank(earlier.line());
    lemma_feed_blank(spinner.line());
    lemma_redraw_in_place(
        spinner.meter,
        spaced(spinner.meter.label),
        seq![earlier.glyph(), ' '],
        seq![spinner.glyph(), ' '],
    );
}

/// An update that redraws leaves the terminal showing the line of the
/// spinner as the update left it.
pub proof fn lemma_spinner_update_on_screen(screen: Line, spinner: SpinnerView, now: nat)
    requires
        screen.looks_like(Line::blank().feed(spinner.line())),
        spinner.wf(),
        labels_plain(spinner.meter),
        spinner.redraws(now),
    ensures
        screen.feed(spinner.updated(now).in_place()).looks_like(
            Line::blank().feed(spinner.updated(now).line()),
        ),
{
    lemma_spinner_redraw_on_screen(screen, spinner, spinner.updated(now));
}

/// On a terminal without escape sequences `hide_line` writes as many
/// blanks as the line has bytes, with the labels as they now are. That is
/// no fewer than the line has characters, and as many where the labels are
/// blanks and visible characters of ASCII.
pub proof fn lemma_spinner_hidden_width(spinner: SpinnerView)
    requires
        spinner.wf(),
        fits(spinner.meter.label),
        fits(spinner.meter.rlabel),
    ensures
        spinner.hidden_width() == encode_utf8(spinner.line()).len(),
        spinner.hidden_width() >= spinner.line().len(),
        is_plain(spinner.meter.label) && is_plain(spinner.meter.rlabel)
            ==> spinner.hidden_width() == spinner.line().len(),
{
    lemma_spinner_on_screen(spinner);
    lemma_line_width(spinner.meter.label, seq![spinner.glyph(), ' '], spinner.meter.rlabel);
}

/// A line that is hidden and then shown again shows the line of the spinner
/// as it is now and nothing of the line before, the labels being without
/// control characters and unchanged since the line was written.
pub proof fn lemma_spinner_hide_then_show(
    screen: Line,
    earlier: SpinnerView,
    spinner: SpinnerView,
)
    requires
        screen.looks_like(Line::blank().feed(earlier.line())),
        earlier.wf(),
        spinner.wf(),
        labels_printed(spinner.meter),
        earlier.meter.label == spinner.meter.label,
        earlier.meter.rlabel == spinner.meter.rlabel,
    ensures
        screen.feed(erase_line(spinner.meter.have_vt100, spinner.hidden_width())).feed(
            spinner.line(),
        ).looks_like(Line::blank().feed(spinner.line())),
{
    let erase = erase_line(spinner.meter.have_vt100, spinner.hidden_width());
    let written = Line::blank().feed(earlier.line());
    lemma_feed_looks_like(screen, written, erase);
    lemma_feed_looks_like(screen.feed(erase), written.feed(erase), spinner.line());
    lemma_spinner_on_screen(earlier);
    lemma_spinner_on_screen(spinner);
    lemma_spinner_hidden_width(spinner);
    lemma_feed_blank(earlier.line());
    lemma_feed_blank(spinner.line());
    lemma_erase_then_show(
        earlier.line(),
        spinner.meter.have_vt100,
        spinner.hidden_width(),
        spinner.line(),
    );
}

/// When a spinner finishes, the terminal is left showing the label and the
/// trailing label with one blank between them, and the cursor behind them;
/// the glyph is gone. The end of the line follows.
pub proof fn lemma_spinner_finish_on_screen(screen: Line, spinner: SpinnerView)
    requires
        screen.looks_like(Line::blank().feed(spinner.line())),
        spinner.wf(),
        labels_plain(spinner.meter),
    ensures
        spinner.last_words().last() == '\n',
        screen.feed(spinner.last_words().drop_last()).looks_like(
            Line::blank().feed(spaced(spinner.meter.label) + spinner.meter.rlabel),
        ),
{
    lemma_feed_looks_like(
        screen,
        Line::blank().feed(spinner.line()),
        spinner.last_words().drop_last(),
    );
    let meter = spinner.meter;
    let label = spaced(meter.label);
    let glyph = seq![spinner.glyph(), ' '];
    let left = label + meter.rlabel;
    lemma_spinner_on_screen(spinner);
    lemma_spaced_plain(meter.label);
    lemma_feed_blank(spinner.line());
    lemma_feed_blank(left);
    let shown = Line::showing(spinner.line());
    let erase = meter.erase_text();
    let rest = backspaces(2) + spaces(2) + backspaces(2) + meter.rlabel;
    assert(spinner.last_words().drop_last() =~= erase + rest);
    lemma_feed_add(shown, erase, rest);
    assert(spinner.line() =~= (label + glyph) + spaced(meter.rlabel));
    lemma_erase_label(meter, label + glyph);
    let erased = shown.feed(erase);
    let bare = Line::showing(label + glyph);
    lemma_feed_looks_like(erased, bare, rest);
    assert(rest =~= backspaces(2) + (spaces(2) + backspaces(2) + meter.rlabel));
    lemma_feed_add(bare, backspaces(2), spaces(2) + backspaces(2) + meter.rlabel);
    lemma_feed_backspaces(bare, 2);
    let at_glyph = bare.feed(backspaces(2));
    assert(spaces(2) + backspaces(2) + meter.rlabel =~= spaces(2) + (backspaces(2)
        + meter.rlabel));
    lemma_feed_add(at_glyph, spaces(2), backspaces(2) + meter.rlabel);
    lemma_feed_printed(at_glyph, spaces(2));
    let wiped = at_glyph.feed(spaces(2));
    lemma_feed_add(wiped, backspaces(2), meter.rlabel);
    lemma_feed_backspaces(wiped, 2);
    let back = wiped.feed(backspaces(2));
    lemma_feed_printed(back, meter.rlabel);
    let done = back.feed(meter.rlabel);
    let wanted = Line::showing(left);
    assert forall|i: int| done.cell(i) == wanted.cell(i) by {
        if label.len() <= i < label.len() + meter.rlabel.len() {
            assert(done.cell(i) == meter.rlabel[i - label.len()]);
        } else {
            assert(done.cell(i) == back.cell(i));
            assert(wiped.cell(i) == if label.len() <= i < label.len() + 2 {
                spaces(2)[i - label.len()]
            } else {
                at_glyph.cell(i)
            });
        }
    }
    assert(done.looks_like(wanted));
}

/// The glyph on a line, with the blank behind it, is of ASCII. The line is
/// two characters longer than its labels as they stand in it. It is printed
/// where its labels are, and of ASCII where its labels are.
proof fn lemma_spinner_on_screen(spinner: SpinnerView)
    requires
        spinner.wf(),
    ensures
        is_plain(seq![spinner.glyph(), ' ']),
        spinner.line().len() == spaced(spinner.meter.label).len() + 2 + spaced(
            spinner.meter.rlabel,
        ).len(),
        is_plain(spinner.meter.label) && is_plain(spinner.meter.rlabel) ==> is_plain(
            spinner.line(),
        ),
        is_printed(spinner.meter.label) && is_printed(spinner.meter.rlabel) ==> is_printed(
            spinner.line(),
        ),
{
    lemma_spaced_plain(spinner.meter.label);
    lemma_spaced_plain(spinner.meter.rlabel);
    lemma_plain_printed(seq![spinner.glyph(), ' ']);
}

} // verus!
