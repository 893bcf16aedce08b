//! A bar that fills from left to right.

use crate::meter::{clamp_value, clamped, redraw_due, MeterView, ProgressMeter, REDRAW_INTERVAL};
use crate::progress::Progress;
use crate::rounding::{
    clip, lemma_round_div_between, lemma_round_div_monotonic, lemma_round_div_multiple,
    lemma_round_div_signs, round_div, rounded_share,
};
use crate::screen::{
    is_plain, is_printed, labels_plain, labels_printed, lemma_erase_then_show, lemma_feed_blank,
    lemma_feed_looks_like, lemma_line_width, lemma_plain_printed, lemma_redraw_in_place,
    lemma_spaced_plain, Line,
};
use crate::text::{
    backspaces, erase_line, lemma_occurrences_add, lemma_occurrences_repeated, occurrences,
    fits, push_backspaces, push_blanks_for, push_erase_to_end, push_repeated, push_spaced,
    push_spaces, repeated, shown_len, spaced,
};
use vstd::prelude::*;
use vstd::string::*;
use vstd::utf8::encode_utf8;

verus! {

/// The width of a bar for which none was asked.
pub const BAR_WIDTH: usize = 20;

/// The number of cells of a bar of `width` cells that are filled at `value`
/// of `max_value`: the share of the width that the value, held to its
/// range, has of the ceiling, rounded; none where the ceiling is zero.
pub open spec fn filled_cells(width: nat, value: int, max_value: int) -> nat {
    if max_value == 0 {
        0
    } else {
        clip(round_div(width * clamp_value(value, max_value), max_value), 0, width as int) as nat
    }
}

/// A bar of `width` cells between two brackets, the first `filled` of them
/// filled.
pub open spec fn bar_glyphs(width: nat, filled: nat) -> Seq<char> {
    seq!['|'] + repeated('=', filled) + repeated(' ', (width - filled) as nat) + seq!['|']
}

/// Whether `text` is a bar of `width` cells, filled to some point.
pub open spec fn is_bar(text: Seq<char>, width: nat) -> bool {
    exists|filled: nat| filled <= width && text == #[trigger] bar_glyphs(width, filled)
}

/// A progress bar.
pub struct ProgressBar {
    meter: ProgressMeter,
    bar_width: usize,
    cached: String,
}

/// The bar as contracts see it.
pub struct BarView {
    /// Labels, value, ceiling, time of the last redraw, kind of terminal.
    pub meter: MeterView,
    /// The number of cells between the brackets.
    pub bar_width: nat,
    /// The bar as it was last computed for the screen; empty before that.
    pub cached: Seq<char>,
}

impl BarView {
    /// What holds of every bar: it has more than two cells, its value lies
    /// within its range, and what it has cached is a bar of its width.
    pub open spec fn wf(self) -> bool {
        &&& self.bar_width > 2
        &&& self.meter.max_value >= 0 ==> 0 <= self.meter.value <= self.meter.max_value
        &&& self.cached.len() == 0 || is_bar(self.cached, self.bar_width)
    }

    /// The bar for the present value.
    pub open spec fn glyphs(self) -> Seq<char> {
        bar_glyphs(
            self.bar_width,
            filled_cells(self.bar_width, self.meter.value, self.meter.max_value),
        )
    }

    /// The bar that a whole line shows: the cached one, or, before any was
    /// cached, the bar for the present value.
    pub open spec fn shown(self) -> Seq<char> {
        if self.cached.len() == 0 {
            self.glyphs()
        } else {
            self.cached
        }
    }

    /// The whole line: label, bar, trailing label.
    pub open spec fn line(self) -> Seq<char> {
        spaced(self.meter.label) + self.shown().push(' ') + spaced(self.meter.rlabel)
    }

    /// The output that redraws the bar and the trailing label in place.
    pub open spec fn in_place(self) -> Seq<char> {
        self.meter.back_text() + backspaces(self.bar_width + 3) + self.glyphs().push(' ') + spaced(
            self.meter.rlabel,
        )
    }

    /// The output that ends the work: a last redraw in place, and the end
    /// of the line.
    pub open spec fn last_words(self) -> Seq<char> {
        self.in_place().push('\n')
    }

    /// The number of cells that `hide_line` blanks out on a terminal without
    /// escape sequences: as many as the line is counted for, with its
    /// labels as they now are.
    pub open spec fn hidden_width(self) -> nat {
        shown_len(self.meter.label) + self.bar_width + 3 + shown_len(self.meter.rlabel)
    }

    /// The bar with `value` noted, held to its range.
    pub open spec fn noting(self, value: int) -> BarView {
        BarView {
            meter: MeterView { value: clamp_value(value, self.meter.max_value), ..self.meter },
            ..self
        }
    }

    /// The bar with the bar for its present value cached.
    pub open spec fn recached(self) -> BarView {
        BarView { cached: self.glyphs(), ..self }
    }

    /// The bar after `set_value(value)`.
    pub open spec fn with_value(self, value: int) -> BarView {
        self.noting(value).recached()
    }

    /// The bar after `set_max_value(max_value)`.
    pub open spec fn with_max_value(self, max_value: int) -> BarView {
        BarView {
            meter: MeterView {
                value: clamp_value(self.meter.value, max_value),
                max_value,
                ..self.meter
            },
            ..self
        }.recached()
    }

    /// Whether `update(value, now)` redraws: the rate limiter lets it, and
    /// the bar for the new value is not the cached one.
    pub open spec fn redraws(self, value: int, now: nat) -> bool {
        &&& redraw_due(self.meter.timestamp, now)
        &&& self.noting(value).glyphs() != self.cached
    }

    /// The bar after `update(value, now)`.
    pub open spec fn updated(self, value: int, now: nat) -> BarView {
        let noted = self.noting(value);
        let asked = BarView { meter: noted.meter.asked_at(now), ..noted };
        if self.redraws(value, now) {
            asked.recached()
        } else {
            asked
        }
    }
}

impl View for ProgressBar {
    type V = BarView;

    closed spec fn view(&self) -> BarView {
        BarView { meter: self.meter@, bar_width: self.bar_width as nat, cached: self.cached@ }
    }
}

/// The number of cells of a bar of `width` cells that are filled at `value`
/// of `max_value`.
pub fn bar_units(width: usize, value: i32, max_value: i32) -> (units: usize)
    ensures
        units == filled_cells(width as nat, value as int, max_value as int),
        units <= width,
{
    if max_value == 0 {
        return 0;
    }
    proof {
        lemma_filled_cells(width as nat, value as int, max_value as int);
    }
    if max_value < 0 {
        return width;
    }
    let held: i32 = clamped(value, max_value);
    let share: u128 = rounded_share(width as u64, held as u32, max_value as u32);
    share as usize
}

impl ProgressBar {
    #[verifier::type_invariant]
    closed spec fn inv(self) -> bool {
        self@.wf()
    }

    /// A bar of the usual width without labels, at zero of zero, made at
    /// `now` for a terminal that understands escape sequences or does not.
    pub fn new(have_vt100: bool, now: u64) -> (bar: ProgressBar)
        ensures
            bar@ == (BarView {
                meter: MeterView {
                    label: Seq::empty(),
                    rlabel: Seq::empty(),
                    value: 0,
                    max_value: 0,
                    timestamp: now as nat,
                    have_vt100,
                },
                bar_width: BAR_WIDTH as nat,
                cached: Seq::empty(),
            }),
            bar@.wf(),
    {
        ProgressBar {
            meter: ProgressMeter::new(have_vt100, now),
            bar_width: BAR_WIDTH,
            cached: String::new(),
        }
    }

    /// A bar of `width` cells with both labels and a ceiling, at zero.
    pub fn new_bar(
        label: &str,
        rlabel: &str,
        max_value: i32,
        width: usize,
        have_vt100: bool,
        now: u64,
    ) -> (bar: ProgressBar)
        requires
            width > 2,
        ensures
            bar@ == (BarView {
                meter: MeterView {
                    label: label@,
                    rlabel: rlabel@,
                    value: 0,
                    max_value: max_value as int,
                    timestamp: now as nat,
                    have_vt100,
                },
                bar_width: width as nat,
                cached: Seq::empty(),
            }),
            bar@.wf(),
    {
        ProgressBar {
            meter: ProgressMeter::new_meter(label, rlabel, max_value, have_vt100, now),
            bar_width: width,
            cached: String::new(),
        }
    }

    /// The bar for the present value.
    pub fn make_bar(&self) -> (bar: String)
        ensures
            bar@ == self@.glyphs(),
            is_bar(bar@, self@.bar_width),
    {
        let units: usize = bar_units(self.bar_width, self.meter.value(), self.meter.max_value());
        proof {
            reveal_strlit("|");
            reveal_strlit("=");
        }
        let mut bar = String::from_str("|");
        push_repeated(&mut bar, "=", units);
        push_spaces(&mut bar, self.bar_width - units);
        bar.append("|");
        assert(bar@ =~= bar_glyphs(self@.bar_width, units as nat));
        bar
    }

    /// The whole line: the label, the bar, the trailing label.
    pub fn render(&self) -> (line: String)
        ensures
            line@ == self@.line(),
    {
        proof {
            reveal_strlit(" ");
        }
        let mut line = String::new();
        push_spaced(&mut line, self.meter.label());
        if self.cached.as_str().is_empty() {
            let bar = self.make_bar();
            line.append(bar.as_str());
        } else {
            line.append(self.cached.as_str());
        }
        line.append(" ");
        push_spaced(&mut line, self.meter.rlabel());
        assert(line@ =~= self@.line());
        line
    }
}

impl Progress for ProgressBar {
    open spec fn meter(&self) -> MeterView {
        self@.meter
    }

    open spec fn line(&self) -> Seq<char> {
        self@.line()
    }

    open spec fn in_place(&self) -> Seq<char> {
        self@.in_place()
    }

    open spec fn last_words(&self) -> Seq<char> {
        self@.last_words()
    }

    open spec fn hidden_width(&self) -> nat {
        self@.hidden_width()
    }

    fn get_value(&self) -> (value: i32)
        ensures
            value == self@.meter.value,
            self@.wf(),
    {
        proof {
            use_type_invariant(self);
        }
        self.meter.value()
    }

    fn get_max_value(&self) -> (max_value: i32)
        ensures
            max_value == self@.meter.max_value,
            self@.wf(),
    {
        proof {
            use_type_invariant(self);
        }
        self.meter.max_value()
    }

    fn set_label(&mut self, label: &str)
        ensures
            final(self)@ == (BarView {
                meter: MeterView { label: label@, ..old(self)@.meter },
                ..old(self)@
            }),
            final(self)@.wf(),
    {
        proof {
            use_type_invariant(&*self);
        }
        self.meter.set_label(label.to_owned());
    }

    fn set_rlabel(&mut self, rlabel: &str)
        ensures
            final(self)@ == (BarView {
                meter: MeterView { rlabel: rlabel@, ..old(self)@.meter },
                ..old(self)@
            }),
            final(self)@.wf(),
    {
        proof {
            use_type_invariant(&*self);
        }
        self.meter.set_rlabel(rlabel.to_owned());
    }

    /// The value is held to its range, and the bar for it is cached: it is
    /// the bar that `show` returns from now on.
    fn set_value(&mut self, value: i32)
        ensures
            final(self)@ == old(self)@.with_value(value as int),
            final(self)@.wf(),
    {
        self.update_value(value);
        let new_bar = self.make_bar();
        if new_bar != self.cached {
            self.cached = new_bar;
        }
    }

    /// The value is held to the new range, and the bar for it is cached.
    fn set_max_value(&mut self, value: i32)
        ensures
            final(self)@ == old(self)@.with_max_value(value as int),
            final(self)@.wf(),
    {
        proof {
            use_type_invariant(&*self);
        }
        let held: i32 = clamped(self.meter.value(), value);
        self.meter.set_range(held, value);
        let new_bar = self.make_bar();
        if new_bar != self.cached {
            self.cached = new_bar;
        }
    }

    /// The line shows the cached bar, or, before any was cached, the bar
    /// for the present value.
    fn show(&self) -> (out: String)
        ensures
            out@ == self@.line(),
    {
        self.render()
    }

    fn hide_line(&self) -> (out: String)
        ensures
            out@ == erase_line(self@.meter.have_vt100, self@.hidden_width()),
    {
        proof {
            reveal_strlit("\r");
        }
        let mut out = String::from_str("\r");
        if self.meter.have_vt100() {
            push_erase_to_end(&mut out);
        } else {
            push_blanks_for(&mut out, self.meter.label());
            push_spaces(&mut out, self.bar_width);
            push_spaces(&mut out, 3);
            push_blanks_for(&mut out, self.meter.rlabel());
            out.append("\r");
        }
        assert(out@ =~= erase_line(self@.meter.have_vt100, self@.hidden_width()));
        out
    }

    /// The value is held to its range. Then the rate limiter is asked. If
    /// it lets the bar redraw, and the bar for the value is not the cached
    /// one, that bar is cached and drawn.
    fn update(&mut self, value: i32, now: u64) -> (out: Option<String>)
        ensures
            final(self)@ == old(self)@.updated(value as int, now as nat),
            final(self)@.wf(),
            out is Some <==> old(self)@.redraws(value as int, now as nat),
            out matches Some(text) ==> text@ == final(self)@.in_place(),
    {
        self.update_value(value);
        proof {
            use_type_invariant(&*self);
        }
        if self.meter.need_update(now) {
            let new_bar = self.make_bar();
            if new_bar != self.cached {
                self.cached = new_bar;
                return Some(self.update_display());
            }
        }
        None
    }

    /// The bar for the present value is drawn, whether an update has drawn
    /// it or not, and the line is ended.
    fn finish(&self) -> (out: String)
        ensures
            out@ == self@.last_words(),
    {
        proof {
            reveal_strlit("\n");
        }
        let mut out = self.update_display();
        out.append("\n");
        assert(out@ =~= self@.last_words());
        out
    }

    /// The value is held to its range. The cached bar stays as it is.
    fn update_value(&mut self, value: i32)
        ensures
            final(self)@ == old(self)@.noting(value as int),
            final(self)@.wf(),
    {
        proof {
            use_type_invariant(&*self);
        }
        let held: i32 = clamped(value, self.meter.max_value());
        self.meter.set_value(held);
    }

    /// The cursor goes back over the trailing label and the bar, and the
    /// bar for the present value and the trailing label are written.
    fn update_display(&self) -> (out: String)
        ensures
            out@ == self@.in_place(),
    {
        proof {
            reveal_strlit(" ");
        }
        let mut out = self.meter.back_rlabel();
        push_backspaces(&mut out, self.bar_width);
        push_backspaces(&mut out, 3);
        let bar = self.make_bar();
        out.append(bar.as_str());
        out.append(" ");
        push_spaced(&mut out, self.meter.rlabel());
        assert(out@ =~= self@.in_place());
        out
    }
}

/// The shape of a bar: it is two characters longer than it has cells, it
/// begins and ends with a bracket, its filled cells stand before its empty
/// ones, and `=` stands in it as often as it has filled cells.
pub proof fn lemma_bar_shape(width: nat, filled: nat)
    requires
        filled <= width,
    ensures
        bar_glyphs(width, filled).len() == width + 2,
        bar_glyphs(width, filled).first() == '|',
        bar_glyphs(width, filled).last() == '|',
        forall|i: int| 1 <= i <= filled ==> bar_glyphs(width, filled)[i] == '=',
        forall|i: int| filled < i <= width ==> bar_glyphs(width, filled)[i] == ' ',
        occurrences(bar_glyphs(width, filled), '=') == filled,
        is_plain(bar_glyphs(width, filled)),
{
    let bracket = seq!['|'];
    let full = repeated('=', filled);
    let empty = repeated(' ', (width - filled) as nat);
    lemma_occurrences_add(bracket + full + empty, bracket, '=');
    lemma_occurrences_add(bracket + full, empty, '=');
    lemma_occurrences_add(bracket, full, '=');
    lemma_occurrences_repeated('=', filled, '=');
    lemma_occurrences_repeated(' ', (width - filled) as nat, '=');
    assert(occurrences(bracket, '=') == 0) by {
        assert(bracket.drop_last() =~= Seq::<char>::empty());
        reveal_with_fuel(occurrences, 2);
    }
}

/// The number of filled cells is never more than the width. Under a
/// positive ceiling it is the share of the width that the value, held to
/// the range from 0 to the ceiling, has of the ceiling, rounded to the
/// nearest whole number; under a ceiling of zero it is zero.
pub proof fn lemma_filled_cells(width: nat, value: int, max_value: int)
    ensures
        filled_cells(width, value, max_value) <= width,
        max_value > 0 ==> filled_cells(width, value, max_value) == round_div(
            width * clip(value, 0, max_value),
            max_value,
        ),
        max_value == 0 ==> filled_cells(width, value, max_value) == 0,
        max_value < 0 ==> filled_cells(width, value, max_value) == width,
{
    let held: int = clamp_value(value, max_value);
    if max_value > 0 {
        assert(0 * max_value <= width * held <= width * max_value) by (nonlinear_arith)
            requires
                0 <= held <= max_value,
                width >= 0,
        ;
        lemma_round_div_between(width * held, max_value, 0, width as int);
    } else if max_value < 0 {
        let num: int = width * held;
        lemma_round_div_signs(num, max_value);
        lemma_round_div_multiple(width as int, -max_value);
        assert(width * (-max_value) <= -num) by (nonlinear_arith)
            requires
                num == width * held,
                held <= max_value,
                width >= 0,
        ;
        lemma_round_div_monotonic(width * (-max_value), -num, -max_value);
    }
}

/// A value further on fills no fewer cells, under a positive ceiling.
pub proof fn lemma_filled_cells_monotonic(width: nat, low: int, high: int, max_value: int)
    requires
        low <= high,
        max_value > 0,
    ensures
        filled_cells(width, low, max_value) <= filled_cells(width, high, max_value),
{
    lemma_filled_cells(width, low, max_value);
    lemma_filled_cells(width, high, max_value);
    assert(width * clip(low, 0, max_value) <= width * clip(high, 0, max_value))
        by (nonlinear_arith)
        requires
            clip(low, 0, max_value) <= clip(high, 0, max_value),
            width >= 0,
    ;
    lemma_round_div_monotonic(
        width * clip(low, 0, max_value),
        width * clip(high, 0, max_value),
        max_value,
    );
}

/// Every operation leaves a bar as every bar is: with more than two cells,
/// its value within its range, and a bar of its width cached, if any.
pub proof fn lemma_bar_stays_wf(bar: BarView, value: int, now: nat)
    requires
        bar.wf(),
    ensures
        bar.noting(value).wf(),
        bar.with_value(value).wf(),
        bar.with_max_value(value).wf(),
        bar.updated(value, now).wf(),
{
    lemma_filled_cells(bar.bar_width, clamp_value(value, bar.meter.max_value), bar.meter.max_value);
    lemma_filled_cells(bar.bar_width, clamp_value(bar.meter.value, value), value);
    assert(is_bar(bar.noting(value).glyphs(), bar.bar_width));
    assert(is_bar(bar.with_max_value(value).cached, bar.bar_width));
}

/// Two updates in a row that ask for the same bar redraw at most once: where
/// the first has drawn the bar, the second finds it cached.
pub proof fn lemma_bar_same_glyphs_one_redraw(
    bar: BarView,
    first_value: int,
    first: nat,
    second_value: int,
    second: nat,
)
    requires
        bar.noting(first_value).glyphs() == bar.noting(second_value).glyphs(),
    ensures
        !(bar.redraws(first_value, first) && bar.updated(first_value, first).redraws(
            second_value,
            second,
        )),
{
}

/// Two updates in a row, the second less than the interval between two
/// redraws after the first, redraw at most once.
pub proof fn lemma_bar_rate_limit(
    bar: BarView,
    first_value: int,
    first: nat,
    second_value: int,
    second: nat,
)
    requires
        second - first < REDRAW_INTERVAL,
    ensures
        !(bar.redraws(first_value, first) && bar.updated(first_value, first).redraws(
            second_value,
            second,
        )),
{
}

/// On a clock that does not run backwards, the rate limiter lets an update
/// redraw whenever the interval between two redraws has passed since the
/// update before it.
pub proof fn lemma_bar_due_after_interval(bar: BarView, value: int, first: nat, second: nat)
    requires
        bar.meter.timestamp <= first,
        second - first >= REDRAW_INTERVAL,
    ensures
        redraw_due(bar.updated(value, first).meter.timestamp, second),
{
}

/// A redraw in place leaves the line as if it had been written anew with
/// the bar for the present value.
///
/// The terminal looks as if the line of a bar as it was had been written
/// on an empty line, and reads the redraw of the bar as it is now, with
/// the same labels and width. The labels are blanks and visible characters of
/// ASCII, so that they take as many cells as they are counted for. Then the
/// terminal looks as if the line of the bar as it is now had been written
/// on an empty line, whether it understands escape sequences or not.
pub proof fn lemma_bar_redraw_on_screen(screen: Line, earlier: BarView, bar: BarView)
    requires
        screen.looks_like(Line::blank().feed(earlier.line())),
        earlier.wf(),
        bar.wf(),
        labels_plain(bar.meter),
        earlier.meter.label == bar.meter.label,
        earlier.meter.rlabel == bar.meter.rlabel,
        earlier.bar_width == bar.bar_width,
    ensures
        screen.feed(bar.in_place()).looks_like(Line::blank().feed(bar.recached().line())),
{
    let width: nat = bar.bar_width;
    lemma_feed_looks_like(screen, Line::blank().feed(earlier.line()), bar.in_place());
    lemma_bar_on_screen(earlier);
    lemma_bar_on_screen(bar.recached());
    lemma_feed_blank(earlier.line());
    lemma_feed_blank(bar.recached().line());
    lemma_filled_cells(width, bar.meter.value, bar.meter.max_value);
    lemma_bar_shape(width, filled_cells(width, bar.meter.value, bar.meter.max_value));
    lemma_spaced_plain(bar.meter.label);
    lemma_redraw_in_place(
        bar.meter,
        spaced(bar.meter.label),
        earlier.shown().push(' '),
        bar.glyphs().push(' '),
    );
    assert(earlier.line() =~= spaced(bar.meter.label) + earlier.shown().push(' ') + spaced(
        bar.meter.rlabel,
    ));
    assert(bar.in_place() =~= bar.meter.back_text() + backspaces(
        earlier.shown().push(' ').len(),
    ) + bar.glyphs().push(' ') + spaced(bar.meter.rlabel));
    assert(bar.recached().line() =~= spaced(bar.meter.label) + bar.glyphs().push(' ') + spaced(
        bar.meter.rlabel,
    ));
}

/// An update that redraws leaves the terminal showing the line of the bar
/// as the update left it.
pub proof fn lemma_bar_update_on_screen(screen: Line, bar: BarView, value: int, now: nat)
    requires
        screen.looks_like(Line::blank().feed(bar.line())),
        bar.wf(),
        labels_plain(bar.meter),
        bar.redraws(value, now),
    ensures
        screen.feed(bar.updated(value, now).in_place()).looks_like(
            Line::blank().feed(bar.updated(value, now).line()),
        ),
{
    let next = bar.updated(value, now);
    lemma_bar_stays_wf(bar, value, now);
    lemma_bar_redraw_on_screen(screen, bar, next);
    assert(next.recached() == next);
}

/// On a terminal without escape sequences `hide_line` writes as many
/// blanks as the line has bytes, with the labels as they now are. That is
/// no fewer than the line has characters, and as many where the labels are
/// blanks and visible characters of ASCII.
pub proof fn lemma_bar_hidden_width(bar: BarView)
    requires
        bar.wf(),
        fits(bar.meter.label),
        fits(bar.meter.rlabel),
    ensures
        bar.hidden_width() == encode_utf8(bar.line()).len(),
        bar.hidden_width() >= bar.line().len(),
        is_plain(bar.meter.label) && is_plain(bar.meter.rlabel) ==> bar.hidden_width()
            == bar.line().len(),
{
    lemma_bar_on_screen(bar);
    lemma_line_width(bar.meter.label, bar.shown().push(' '), bar.meter.rlabel);
}

/// A line that is hidden and then shown again shows the line of the bar as
/// it is now and nothing of the line before, the labels being without
/// control characters and unchanged since the line was written.
pub proof fn lemma_bar_hide_then_show(screen: Line, earlier: BarView, bar: BarView)
    requires
        screen.looks_like(Line::blank().feed(earlier.line())),
        earlier.wf(),
        bar.wf(),
        labels_printed(bar.meter),
        earlier.meter.label == bar.meter.label,
        earlier.meter.rlabel == bar.meter.rlabel,
        earlier.bar_width == bar.bar_width,
    ensures
        screen.feed(erase_line(bar.meter.have_vt100, bar.hidden_width())).feed(
            bar.line(),
        ).looks_like(Line::blank().feed(bar.line())),
{
    let erase = erase_line(bar.meter.have_vt100, bar.hidden_width());
    let written = Line::blank().feed(earlier.line());
    lemma_feed_looks_like(screen, written, erase);
    lemma_feed_looks_like(screen.feed(erase), written.feed(erase), bar.line());
    lemma_bar_on_screen(earlier);
    lemma_bar_on_screen(bar);
    lemma_bar_hidden_width(bar);
    lemma_feed_blank(earlier.line());
    lemma_feed_blank(bar.line());
    lemma_erase_then_show(earlier.line(), bar.meter.have_vt100, bar.hidden_width(), bar.line());
}

/// The bar on a line, with the blank behind it, is three characters longer
/// than it has cells, and of ASCII. The line is printed where its labels
/// are, and of ASCII where its labels are.
proof fn lemma_bar_on_screen(bar: BarView)
    requires
        bar.wf(),
    ensures
        is_plain(bar.shown().push(' ')),
        bar.shown().push(' ').len() == bar.bar_width + 3,
        bar.line().len() == spaced(bar.meter.label).len() + bar.bar_width + 3 + spaced(
            bar.meter.rlabel,
        ).len(),
        is_plain(bar.meter.label) && is_plain(bar.meter.rlabel) ==> is_plain(bar.line()),
        is_printed(bar.meter.label) && is_printed(bar.meter.rlabel) ==> is_printed(bar.line()),
{
    let width: nat = bar.bar_width;
    lemma_filled_cells(width, bar.meter.value, bar.meter.max_value);
    lemma_bar_shape(width, filled_cells(width, bar.meter.value, bar.meter.max_value));
    if bar.cached.len() > 0 {
        let filled = choose|filled: nat| filled <= width && bar.cached == bar_glyphs(width, filled);
        lemma_bar_shape(width, filled);
    }
    lemma_spaced_plain(bar.meter.label);
    lemma_spaced_plain(bar.meter.rlabel);
    lemma_plain_printed(bar.shown().push(' '));
}

} // verus!
