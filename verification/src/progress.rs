//! What every indicator can do.

use crate::meter::{redraw_due, MeterView};
use crate::text::erase_line;
use vstd::prelude::*;

verus! {

/// An indicator of progress on one line of a terminal.
///
/// An indicator never writes by itself: each operation that changes the
/// screen returns the text to write, and the caller writes and flushes it
/// before anything else goes to the terminal. `update` is told the time of
/// the call in milliseconds of a clock that never runs backwards.
///
/// The contracts here hold of every indicator. Each kind of indicator states
/// on its own methods what more holds of it.
pub trait Progress {
    /// Labels, value, ceiling, time of the last redraw, kind of terminal.
    spec fn meter(&self) -> MeterView;

    /// The whole line, as `show` returns it.
    spec fn line(&self) -> Seq<char>;

    /// The output that redraws the indicator and the trailing label in
    /// place, as `update_display` returns it.
    spec fn in_place(&self) -> Seq<char>;

    /// The output that ends the work, as `finish` returns it.
    spec fn last_words(&self) -> Seq<char>;

    /// The number of cells that `hide_line` blanks out on a terminal
    /// without escape sequences: as many as the line is counted for.
    spec fn hidden_width(&self) -> nat;

    /// The progress made so far.
    fn get_value(&self) -> (value: i32)
        ensures
            value == self.meter().value,
    ;

    /// The value at which the work is done.
    fn get_max_value(&self) -> (max_value: i32)
        ensures
            max_value == self.meter().max_value,
    ;

    /// Replaces the label in front of the indicator. Nothing is drawn.
    fn set_label(&mut self, label: &str)
        ensures
            final(self).meter() == (MeterView { label: label@, ..old(self).meter() }),
    ;

    /// Replaces the label behind the indicator. Nothing is drawn.
    fn set_rlabel(&mut self, rlabel: &str)
        ensures
            final(self).meter() == (MeterView { rlabel: rlabel@, ..old(self).meter() }),
    ;

    /// Sets the progress made so far. Nothing is drawn, and nothing but the
    /// value changes.
    fn set_value(&mut self, value: i32)
        ensures
            final(self).meter() == (MeterView {
                value: final(self).meter().value,
                ..old(self).meter()
            }),
    ;

    /// Sets the value at which the work is done. Nothing is drawn, and
    /// nothing but the value and its ceiling changes.
    fn set_max_value(&mut self, value: i32)
        ensures
            final(self).meter() == (MeterView {
                value: final(self).meter().value,
                max_value: final(self).meter().max_value,
                ..old(self).meter()
            }),
    ;

    /// The whole line, to be written once when the work begins.
    fn show(&self) -> (out: String)
        ensures
            out@ == self.line(),
    ;

    /// The output that wipes the line and returns the cursor to its start.
    fn hide_line(&self) -> (out: String)
        ensures
            out@ == erase_line(self.meter().have_vt100, self.hidden_width()),
    ;

    /// Takes note of the progress made at the time `now`, and returns what
    /// is to be written, if anything: a redraw in place of the indicator as
    /// it then is. There is none unless the rate limiter lets it, and the
    /// time of a redraw is remembered.
    fn update(&mut self, value: i32, now: u64) -> (out: Option<String>)
        ensures
            out is Some ==> redraw_due(old(self).meter().timestamp, now as nat),
            out is Some ==> final(self).meter().timestamp == now,
            out matches Some(text) ==> text@ == final(self).in_place(),
            final(self).meter() == (MeterView {
                value: final(self).meter().value,
                timestamp: final(self).meter().timestamp,
                ..old(self).meter()
            }),
            final(self).meter().timestamp == old(self).meter().timestamp
                || final(self).meter().timestamp == now,
    ;

    /// The output that ends the work: a last redraw whatever the rate
    /// limiter says, and the end of the line.
    fn finish(&self) -> (out: String)
        ensures
            out@ == self.last_words(),
    ;

    /// Takes note of the progress made, without drawing. Nothing but the
    /// value changes.
    fn update_value(&mut self, value: i32)
        ensures
            final(self).meter() == (MeterView {
                value: final(self).meter().value,
                ..old(self).meter()
            }),
    ;

    /// The output that redraws the indicator and the trailing label in
    /// place, the cursor standing at the end of the line.
    fn update_display(&self) -> (out: String)
        ensures
            out@ == self.in_place(),
    ;
}

} // verus!
