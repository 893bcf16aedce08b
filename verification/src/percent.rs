//! A percentage that counts up to 100.

use crate::meter::{clamp_value, clamped, redraw_due, MeterView, ProgressMeter, REDRAW_INTERVAL};
use crate::progress::Progress;
use crate::rounding::{
    clip, lemma_round_div_between, lemma_round_div_monotonic, lemma_round_div_multiple,
    lemma_round_div_not_positive, lemma_round_div_signs, magnitude, round_div, rounded_share,
};
use crate::screen::{
    is_plain, is_printed, labels_plain, labels_printed, lemma_erase_then_show, lemma_feed_blank,
    lemma_feed_looks_like, lemma_line_width, lemma_plain_printed, lemma_redraw_in_place,
    lemma_spaced_plain, Line,
};
use crate::text::{
    backspaces, decimal, erase_line, fits, lemma_decimal_digits, lemma_decimal_len, push_backspaces,
    push_blanks_for, push_erase_to_end, push_right_aligned, push_spaced, push_spaces,
    right_aligned, shown_len, spaced,
};
use vstd::prelude::*;
use vstd::string::*;
use vstd::utf8::encode_utf8;

verus! {

/// The percentage that `value` is of `max_value`, rounded to the nearest
/// whole number and held to the range from 0 to 100; zero of zero is 0.
pub open spec fn percentage(value: int, max_value: int) -> int {
    if max_value == 0 {
        0
    } else {
        clip(round_div(100 * value, max_value), 0, 100)
    }
}

/// A percentage as it stands on the screen: the number in a field of three
/// characters, the percent sign, a blank.
pub open spec fn percent_glyphs(percent: int) -> Seq<char> {
    right_aligned(decimal(percent as nat), 3) + seq!['%', ' ']
}

/// A progress indicator that shows a percentage.
pub struct ProgressPercent {
    meter: ProgressMeter,
}

/// The percentage indicator as contracts see it.
pub struct PercentView {
    /// Labels, value, ceiling, time of the last redraw, kind of terminal.
    pub meter: MeterView,
}

impl PercentView {
    /// What holds of every percentage indicator: its value lies within its
    /// range.
    pub open spec fn wf(self) -> bool {
        self.meter.max_value >= 0 ==> 0 <= self.meter.value <= self.meter.max_value
    }

    /// The percentage for the present value.
    pub open spec fn percent(self) -> int {
        percentage(self.meter.value, self.meter.max_value)
    }

    /// The whole line: label, percentage, trailing label.
    pub open spec fn line(self) -> Seq<char> {
        spaced(self.meter.label) + percent_glyphs(self.percent()) + spaced(self.meter.rlabel)
    }

    /// The output that redraws the percentage and the trailing label in
    /// place.
    pub open spec fn in_place(self) -> Seq<char> {
        self.meter.back_text() + backspaces(5) + percent_glyphs(self.percent()) + spaced(
            self.meter.rlabel,
        )
    }

    /// The output that ends the work: a last redraw in place, and the end
    /// of the line.
    pub open spec fn last_words(self) -> Seq<char> {
        self.in_place().push('\n')
    }

    /// The number of cells that `hide_line` blanks out on a terminal
    /// without escape sequences: as many as the line is counted for, with
    /// its labels as they now are.
    pub open spec fn hidden_width(self) -> nat {
        5 + shown_len(self.meter.label) + shown_len(self.meter.rlabel)
    }

    /// The indicator with `value` noted, held to its range.
    pub open spec fn noting(self, value: int) -> PercentView {
        PercentView {
            meter: MeterView { value: clamp_value(value, self.meter.max_value), ..self.meter },
        }
    }

    /// The indicator after `set_max_value(max_value)`.
    pub open spec fn with_max_value(self, max_value: int) -> PercentView {
        PercentView {
            meter: MeterView {
                value: clamp_value(self.meter.value, max_value),
                max_value,
                ..self.meter
            },
        }
    }

    /// Whether `update(value, now)` changes the percentage.
    pub open spec fn changes(self, value: int) -> bool {
        self.noting(value).percent() != self.percent()
    }

    /// Whether `update(value, now)` redraws: the percentage changes, and
    /// the rate limiter lets it.
    pub open spec fn redraws(self, value: int, now: nat) -> bool {
        self.changes(value) && redraw_due(self.meter.timestamp, now)
    }

    /// The indicator after `update(value, now)`. The rate limiter is asked
    /// only where the percentage changes.
    pub open spec fn updated(self, value: int, now: nat) -> PercentView {
        let noted = self.noting(value);
        if self.changes(value) {
            PercentView { meter: noted.meter.asked_at(now) }
        } else {
            noted
        }
    }
}

impl View for ProgressPercent {
    type V = PercentView;

    closed spec fn view(&self) -> PercentView {
        PercentView { meter: self.meter@ }
    }
}

/// The percentage that `value` is of `max_value`.
pub fn percent_of(value: i32, max_value: i32) -> (percent: i32)
    ensures
        percent == percentage(value as int, max_value as int),
        0 <= percent <= 100,
{
    if max_value == 0 {
        return 0;
    }
    proof {
        lemma_round_div_signs(100 * value, max_value as int);
    }
    if (value <= 0 && max_value > 0) || (value >= 0 && max_value < 0) {
        proof {
            if max_value > 0 {
                lemma_round_div_not_positive(100 * value, max_value as int);
            } else {
                lemma_round_div_not_positive(-(100 * value), -max_value);
            }
        }
        return 0;
    }
    let share: u128 = rounded_share(100, magnitude(value), magnitude(max_value));
    if share > 100 {
        100
    } else {
        share as i32
    }
}

impl ProgressPercent {
    #[verifier::type_invariant]
    closed spec fn inv(self) -> bool {
        self@.wf()
    }

    /// A percentage without labels, at zero of zero, made at `now` for a
    /// terminal that understands escape sequences or does not.
    pub fn new(have_vt100: bool, now: u64) -> (percent: ProgressPercent)
        ensures
            percent@ == (PercentView {
                meter: MeterView {
                    label: Seq::empty(),
                    rlabel: Seq::empty(),
                    value: 0,
                    max_value: 0,
                    timestamp: now as nat,
                    have_vt100,
                },
            }),
            percent@.wf(),
    {
        ProgressPercent { meter: ProgressMeter::new(have_vt100, now) }
    }

    /// A percentage with both labels and a ceiling, at zero.
    pub fn new_percent(
        label: &str,
        rlabel: &str,
        max_value: i32,
        have_vt100: bool,
        now: u64,
    ) -> (percent: ProgressPercent)
        ensures
            percent@ == (PercentView {
                meter: MeterView {
                    label: label@,
                    rlabel: rlabel@,
                    value: 0,
                    max_value: max_value as int,
                    timestamp: now as nat,
                    have_vt100,
                },
            }),
            percent@.wf(),
    {
        ProgressPercent {
            meter: ProgressMeter::new_meter(label, rlabel, max_value, have_vt100, now),
        }
    }

    /// The percentage for the present value.
    pub fn calc_percentage(&self) -> (percent: i32)
        ensures
            percent == self@.percent(),
            0 <= percent <= 100,
    {
        percent_of(self.meter.value(), self.meter.max_value())
    }

    /// Appends the percentage as it stands on the screen.
    fn push_percent(&self, out: &mut String)
        ensures
            final(out)@ == old(out)@ + percent_glyphs(self@.percent()),
    {
        proof {
            reveal_strlit("% ");
        }
        let percent: i32 = self.calc_percentage();
        push_right_aligned(out, percent as u128, 3);
        out.append("% ");
        assert(out@ =~= old(out)@ + percent_glyphs(self@.percent()));
    }

    /// The whole line: the label, the percentage, the trailing label.
    pub fn render(&self) -> (line: String)
        ensures
            line@ == self@.line(),
    {
        let mut line = String::new();
        push_spaced(&mut line, self.meter.label());
        self.push_percent(&mut line);
        push_spaced(&mut line, self.meter.rlabel());
        assert(line@ =~= self@.line());
        line
    }
}

impl Progress for ProgressPercent {
    open spec fn meter(&self) -> MeterView {
        self@.meter
    }

    open spec fn line(&self) -> Seq<char> {
        self@.line()
    }

    open spec fn in_place(&self) -> Seq<char> {
        self@.in_place()
    }

    open spec fn last_words(&self) -> Seq<char> {
        self@.last_words()
    }

    open spec fn hidden_width(&self) -> nat {
        self@.hidden_width()
    }

    fn get_value(&self) -> (value: i32)
        ensures
            value == self@.meter.value,
            self@.wf(),
    {
        proof {
            use_type_invariant(self);
        }
        self.meter.value()
    }

    fn get_max_value(&self) -> (max_value: i32)
        ensures
            max_value == self@.meter.max_value,
            self@.wf(),
    {
        proof {
            use_type_invariant(self);
        }
        self.meter.max_value()
    }

    fn set_label(&mut self, label: &str)
        ensures
            final(self)@ == (PercentView {
                meter: MeterView { label: label@, ..old(self)@.meter },
            }),
            final(self)@.wf(),
    {
        proof {
            use_type_invariant(&*self);
        }
        self.meter.set_label(label.to_owned());
    }

    fn set_rlabel(&mut self, rlabel: &str)
        ensures
            final(self)@ == (PercentView {
                meter: MeterView { rlabel: rlabel@, ..old(self)@.meter },
            }),
            final(self)@.wf(),
    {
        proof {
            use_type_invariant(&*self);
        }
        self.meter.set_rlabel(rlabel.to_owned());
    }

    /// The value is held to its range.
    fn set_value(&mut self, value: i32)
        ensures
            final(self)@ == old(self)@.noting(value as int),
            final(self)@.wf(),
    {
        self.update_value(value);
    }

    /// The value is held to the new range.
    fn set_max_value(&mut self, value: i32)
        ensures
            final(self)@ == old(self)@.with_max_value(value as int),
            final(self)@.wf(),
    {
        proof {
            use_type_invariant(&*self);
        }
        let held: i32 = clamped(self.meter.value(), value);
        self.meter.set_range(held, value);
    }

    fn show(&self) -> (out: String)
        ensures
            out@ == self@.line(),
    {
        self.render()
    }

    fn hide_line(&self) -> (out: String)
        ensures
            out@ == erase_line(self@.meter.have_vt100, self@.hidden_width()),
    {
        proof {
            reveal_strlit("\r");
        }
        let mut out = String::from_str("\r");
        if self.meter.have_vt100() {
            push_erase_to_end(&mut out);
        } else {
            push_spaces(&mut out, 5);
            push_blanks_for(&mut out, self.meter.label());
            push_blanks_for(&mut out, self.meter.rlabel());
            out.append("\r");
        }
        assert(out@ =~= erase_line(self@.meter.have_vt100, self@.hidden_width()));
        out
    }

    /// The value is held to its range. If that changes the percentage,
    /// the rate limiter is asked, and the percentage is drawn if it lets it.
    fn update(&mut self, value: i32, now: u64) -> (out: Option<String>)
        ensures
            final(self)@ == old(self)@.updated(value as int, now as nat),
            final(self)@.wf(),
            out is Some <==> old(self)@.redraws(value as int, now as nat),
            out matches Some(text) ==> text@ == final(self)@.in_place(),
    {
        let old_percent: i32 = self.calc_percentage();
        self.update_value(value);
        let new_percent: i32 = self.calc_percentage();
        proof {
            use_type_invariant(&*self);
        }
        if new_percent != old_percent && self.meter.need_update(now) {
            Some(self.update_display())
        } else {
            None
        }
    }

    /// The percentage for the present value is drawn, and the line is
    /// ended.
    fn finish(&self) -> (out: String)
        ensures
            out@ == self@.last_words(),
    {
        proof {
            reveal_strlit("\n");
        }
        let mut out = self.update_display();
        out.append("\n");
        assert(out@ =~= self@.last_words());
        out
    }

    /// The value is held to its range.
    fn update_value(&mut self, value: i32)
        ensures
            final(self)@ == old(self)@.noting(value as int),
            final(self)@.wf(),
    {
        proof {
            use_type_invariant(&*self);
        }
        let held: i32 = clamped(value, self.meter.max_value());
        self.meter.set_value(held);
    }

    /// The cursor goes back over the trailing label and the percentage,
    /// and the percentage for the present value and the trailing label are
    /// written.
    fn update_display(&self) -> (out: String)
        ensures
            out@ == self@.in_place(),
    {
        let mut out = self.meter.back_rlabel();
        push_backspaces(&mut out, 5);
        self.push_percent(&mut out);
        push_spaced(&mut out, self.meter.rlabel());
        assert(out@ =~= self@.in_place());
        out
    }
}

/// A percentage lies between 0 and 100.
pub proof fn lemma_percentage_range(value: int, max_value: int)
    ensures
        0 <= percentage(value, max_value) <= 100,
{
}

/// Of a ceiling of zero every value is 0 percent.
pub proof fn lemma_percentage_of_zero(value: int)
    ensures
        percentage(value, 0) == 0,
{
}

/// A value further on is no smaller a percentage, under a positive ceiling.
pub proof fn lemma_percentage_monotonic(low: int, high: int, max_value: int)
    requires
        low <= high,
        max_value > 0,
    ensures
        percentage(low, max_value) <= percentage(high, max_value),
{
    lemma_round_div_monotonic(100 * low, 100 * high, max_value);
}

/// Under a positive ceiling the percentage is the quotient of a hundred
/// times the value and the ceiling, rounded to the nearest whole number,
/// where the value is first held to the range from 0 to the ceiling. A
/// value within the range is taken as it is.
pub proof fn lemma_percentage_rounds(value: int, max_value: int)
    requires
        max_value > 0,
    ensures
        percentage(value, max_value) == round_div(100 * clip(value, 0, max_value), max_value),
        0 <= value <= max_value ==> percentage(value, max_value) == round_div(
            100 * value,
            max_value,
        ),
{
    lemma_round_div_multiple(100, max_value);
    if value < 0 {
        lemma_round_div_not_positive(100 * value, max_value);
        lemma_round_div_multiple(0, max_value);
    } else if value > max_value {
        lemma_round_div_monotonic(100 * max_value, 100 * value, max_value);
    } else {
        lemma_round_div_between(100 * value, max_value, 0, 100);
    }
}

/// Under a negative ceiling the percentage is that of the value and the
/// ceiling with their signs changed.
pub proof fn lemma_percentage_signs(value: int, max_value: int)
    ensures
        percentage(value, max_value) == percentage(-value, -max_value),
{
    if max_value != 0 {
        lemma_round_div_signs(100 * value, max_value);
    }
}

/// Every operation leaves the value of a percentage indicator within its
/// range.
pub proof fn lemma_percent_stays_wf(percent: PercentView, value: int, now: nat)
    requires
        percent.wf(),
    ensures
        percent.noting(value).wf(),
        percent.with_max_value(value).wf(),
        percent.updated(value, now).wf(),
{
}

/// Two updates in a row that ask for the same percentage redraw at most
/// once: the second changes nothing on the screen.
pub proof fn lemma_percent_same_percentage_one_redraw(
    percent: PercentView,
    first_value: int,
    first: nat,
    second_value: int,
    second: nat,
)
    requires
        percent.noting(first_value).percent() == percent.noting(second_value).percent(),
    ensures
        !percent.updated(first_value, first).redraws(second_value, second),
{
}

/// Two updates in a row, the second less than the interval between two
/// redraws after the first, redraw at most once.
pub proof fn lemma_percent_rate_limit(
    percent: PercentView,
    first_value: int,
    first: nat,
    second_value: int,
    second: nat,
)
    requires
        second - first < REDRAW_INTERVAL,
    ensures
        !(percent.redraws(first_value, first) && percent.updated(first_value, first).redraws(
            second_value,
            second,
        )),
{
}

/// On a clock that does not run backwards, the rate limiter lets an update
/// redraw whenever the interval between two redraws has passed since the
/// update before it.
pub proof fn lemma_percent_due_after_interval(
    percent: PercentView,
    value: int,
    first: nat,
    second: nat,
)
    requires
        percent.meter.timestamp <= first,
        second - first >= REDRAW_INTERVAL,
    ensures
        redraw_due(percent.updated(value, first).meter.timestamp, second),
{
}

/// A percentage as it stands on the screen is five printed characters.
pub proof fn lemma_percent_glyphs(percent: int)
    requires
        0 <= percent <= 100,
    ensures
        percent_glyphs(percent).len() == 5,
        is_plain(percent_glyphs(percent)),
{
    lemma_decimal_len(percent as nat);
    lemma_decimal_digits(percent as nat);
}

/// A redraw in place leaves the line as if it had been written anew.
///
/// The terminal looks as if the line of a percentage as it was had been written
/// on an empty line, and reads the redraw of the percentage as it is now, with
/// the same labels. The labels are blanks and visible characters of
/// ASCII, so that they take as many cells as they are counted for. Then the
/// terminal looks as if the line of the percentage as it is now had been written
/// on an empty line, whether it understands escape sequences or not.
pub proof fn lemma_percent_redraw_on_screen(
    screen: Line,
    earlier: PercentView,
    percent: PercentView,
)
    requires
        screen.looks_like(Line::blank().feed(earlier.line())),
        labels_plain(percent.meter),
        earlier.meter.label == percent.meter.label,
        earlier.meter.rlabel == percent.meter.rlabel,
    ensures
        screen.feed(percent.in_place()).looks_like(Line::blank().feed(percent.line())),
{
    lemma_feed_looks_like(screen, Line::blank().feed(earlier.line()), percent.in_place());
    lemma_percent_on_screen(earlier);
    lemma_percent_on_screen(percent);
    lemma_percent_glyphs(earlier.percent());
    lemma_percent_glyphs(percent.percent());
    lemma_spaced_plain(percent.meter.label);
    lemma_feed_blank(earlier.line());
    lemma_feed_blank(percent.line());
    lemma_redraw_in_place(
        percent.meter,
        spaced(percent.meter.label),
        percent_glyphs(earlier.percent()),
        percent_glyphs(percent.percent()),
    );
}

/// An update that redraws leaves the terminal showing the line of the
/// percentage as the update left it.
pub proof fn lemma_percent_update_on_screen(
    screen: Line,
    percent: PercentView,
    value: int,
    now: nat,
)
    requires
        screen.looks_like(Line::blank().feed(percent.line())),
        labels_plain(percent.meter),
        percent.redraws(value, now),
    ensures
        screen.feed(percent.updated(value, now).in_place()).looks_like(
            Line::blank().feed(percent.updated(value, now).line()),
        ),
{
    lemma_percent_redraw_on_screen(screen, percent, percent.updated(value, now));
}

/// On a terminal without escape sequences `hide_line` writes as many
/// blanks as the line has bytes, with the labels as they now are. That is
/// no fewer than the line has characters, and as many where the labels are
/// blanks and visible characters of ASCII.
pub proof fn lemma_percent_hidden_width(percent: PercentView)
    requires
        fits(percent.meter.label),
        fits(percent.meter.rlabel),
    ensures
        percent.hidden_width() == encode_utf8(percent.line()).len(),
        percent.hidden_width() >= percent.line().len(),
        is_plain(percent.meter.label) && is_plain(percent.meter.rlabel)
            ==> percent.hidden_width() == percent.line().len(),
{
    lemma_percent_glyphs(percent.percent());
    lemma_line_width(
        percent.meter.label,
        percent_glyphs(percent.percent()),
        percent.meter.rlabel,
    );
}

/// A line that is hidden and then shown again shows the line of the
/// percentage as it is now and nothing of the line before, the labels being
/// without control characters and unchanged since the line was written.
pub proof fn lemma_percent_hide_then_show(
    screen: Line,
    earlier: PercentView,
    percent: PercentView,
)
    requires
        screen.looks_like(Line::blank().feed(earlier.line())),
        labels_printed(percent.meter),
        earlier.meter.label == percent.meter.label,
        earlier.meter.rlabel == percent.meter.rlabel,
    ensures
        screen.feed(erase_line(percent.meter.have_vt100, percent.hidden_width())).feed(
            percent.line(),
        ).looks_like(Line::blank().feed(percent.line())),
{
    let erase = erase_line(percent.meter.have_vt100, percent.hidden_width());
    let written = Line::blank().feed(earlier.line());
    lemma_feed_looks_like(screen, written, erase);
    lemma_feed_looks_like(screen.feed(erase), written.feed(erase), percent.line());
    lemma_percent_on_screen(earlier);
    lemma_percent_on_screen(percent);
    lemma_percent_hidden_width(percent);
    lemma_feed_blank(earlier.line());
    lemma_feed_blank(percent.line());
    lemma_erase_then_show(
        earlier.line(),
        percent.meter.have_vt100,
        percent.hidden_width(),
        percent.line(),
    );
}

/// The line of a percentage is five characters longer than its labels as
/// they stand in it. It is printed where its labels are, and of ASCII where
/// its labels are.
proof fn lemma_percent_on_screen(percent: PercentView)
    ensures
        percent.line().len() == spaced(percent.meter.label).len() + 5 + spaced(
            percent.meter.rlabel,
        ).len(),
        is_plain(percent.meter.label) && is_plain(percent.meter.rlabel) ==> is_plain(
            percent.line(),
        ),
        is_printed(percent.meter.label) && is_printed(percent.meter.rlabel) ==> is_printed(
            percent.line(),
        ),
{
    lemma_percent_glyphs(percent.percent());
    lemma_spaced_plain(percent.meter.label);
    lemma_spaced_plain(percent.meter.rlabel);
    lemma_plain_printed(percent_glyphs(percent.percent()));
}

} // verus!
