//! The state that every indicator shares, the rate limiter, and the cursor
//! movements over the trailing label.
//!
//! The meter touches neither the terminal nor the clock. What is to be
//! written comes back as a `String`; the time of a call is an argument, in
//! milliseconds of a clock that never runs backwards.

use crate::text::{
    backspaces, cursor_left, erase_to_end, lemma_repeated_add, push_backspaces, push_cursor_left,
    push_erase_to_end, push_spaces, spaced_len, spaces,
};
use vstd::prelude::*;
use vstd::string::*;

verus! {

/// Redraws per second that the rate limiter lets through.
pub const FPS_RATE: u64 = 4;

/// Milliseconds that pass between two redraws, at the least.
pub const REDRAW_INTERVAL: u64 = 1000 / FPS_RATE;

/// Whether a terminal of the given type, if any is named, understands ANSI
/// escape sequences: every named type but `dumb` does.
pub open spec fn vt100_capable(term: Option<Seq<char>>) -> bool {
    match term {
        Some(name) => name != seq!['d', 'u', 'm', 'b'],
        None => false,
    }
}

/// Whether a redraw is due at `now`, the last one having been at `last`.
pub open spec fn redraw_due(last: nat, now: nat) -> bool {
    now - last >= REDRAW_INTERVAL
}

/// `value` held to the range from 0 to `max_value`. Under a negative
/// ceiling the range is empty, and the value is only held below the ceiling.
pub open spec fn clamp_value(value: int, max_value: int) -> int {
    if value > max_value {
        max_value
    } else if value < 0 && max_value >= 0 {
        0
    } else {
        value
    }
}

/// What an indicator knows apart from its own way of drawing.
pub struct ProgressMeter {
    label: String,
    rlabel: String,
    value: i32,
    max_value: i32,
    timestamp: u64,
    have_vt100: bool,
}

/// The meter as contracts see it.
pub struct MeterView {
    /// The text in front of the indicator.
    pub label: Seq<char>,
    /// The text behind the indicator.
    pub rlabel: Seq<char>,
    /// The progress made, or the frame of a spinner.
    pub value: int,
    /// The value at which the work is done.
    pub max_value: int,
    /// The time of the last redraw, in milliseconds.
    pub timestamp: nat,
    /// Whether the terminal understands ANSI escape sequences.
    pub have_vt100: bool,
}

impl MeterView {
    /// The output that takes the cursor from the end of the line back to
    /// where the trailing label begins.
    pub open spec fn back_text(self) -> Seq<char> {
        if self.rlabel.len() == 0 {
            Seq::empty()
        } else if self.have_vt100 {
            cursor_left(spaced_len(self.rlabel))
        } else {
            backspaces(spaced_len(self.rlabel))
        }
    }

    /// The output that wipes the trailing label and leaves the cursor where
    /// the label began.
    pub open spec fn erase_text(self) -> Seq<char> {
        if self.rlabel.len() == 0 {
            Seq::empty()
        } else if self.have_vt100 {
            self.back_text() + erase_to_end()
        } else {
            self.back_text() + spaces(spaced_len(self.rlabel)) + self.back_text()
        }
    }

    /// The meter after the rate limiter was asked at `now`.
    pub open spec fn asked_at(self, now: nat) -> MeterView {
        if redraw_due(self.timestamp, now) {
            MeterView { timestamp: now, ..self }
        } else {
            self
        }
    }
}

impl View for ProgressMeter {
    type V = MeterView;

    closed spec fn view(&self) -> MeterView {
        MeterView {
            label: self.label@,
            rlabel: self.rlabel@,
            value: self.value as int,
            max_value: self.max_value as int,
            timestamp: self.timestamp as nat,
            have_vt100: self.have_vt100,
        }
    }
}

/// `value` held to the range from 0 to `max_value`.
pub fn clamped(value: i32, max_value: i32) -> (held: i32)
    ensures
        held == clamp_value(value as int, max_value as int),
{
    if value > max_value {
        max_value
    } else if value < 0 && max_value >= 0 {
        0
    } else {
        value
    }
}

impl ProgressMeter {
    /// A meter without labels, at zero of zero, made at `now`.
    pub fn new(have_vt100: bool, now: u64) -> (meter: ProgressMeter)
        ensures
            meter@ == (MeterView {
                label: Seq::empty(),
                rlabel: Seq::empty(),
                value: 0,
                max_value: 0,
                timestamp: now as nat,
                have_vt100,
            }),
    {
        ProgressMeter {
            label: String::new(),
            rlabel: String::new(),
            value: 0,
            max_value: 0,
            timestamp: now,
            have_vt100,
        }
    }

    /// A meter with both labels and a ceiling, at zero, made at `now`.
    pub fn new_meter(
        label: &str,
        rlabel: &str,
        max_value: i32,
        have_vt100: bool,
        now: u64,
    ) -> (meter: ProgressMeter)
        ensures
            meter@ == (MeterView {
                label: label@,
                rlabel: rlabel@,
                value: 0,
                max_value: max_value as int,
                timestamp: now as nat,
                have_vt100,
            }),
    {
        ProgressMeter {
            label: label.to_owned(),
            rlabel: rlabel.to_owned(),
            value: 0,
            max_value,
            timestamp: now,
            have_vt100,
        }
    }

    /// Decides from the terminal type, as the variable `TERM` names it,
    /// whether ANSI escape sequences may be sent.
    pub fn determine_vt100(term: Option<&str>) -> (capable: bool)
        ensures
            capable == vt100_capable(
                match term {
                    Some(name) => Some(name@),
                    None => None,
                },
            ),
    {
        match term {
            Some(name) => {
                proof {
                    reveal_strlit("dumb");
                }
                let dumb = String::from_str("dumb");
                assert(dumb@ =~= seq!['d', 'u', 'm', 'b']);
                String::from_str(name) != dumb
            },
            None => false,
        }
    }

    /// Replaces the label in front of the indicator. Nothing is drawn.
    ///
    /// This and the setters below take what they store and cannot unwind,
    /// so that an indicator which holds its meter to an invariant may call
    /// them on it.
    pub fn set_label(&mut self, label: String)
        ensures
            final(self)@ == (MeterView { label: label@, ..old(self)@ }),
        no_unwind
    {
        self.label = label;
    }

    /// Replaces the label behind the indicator. Nothing is drawn.
    pub fn set_rlabel(&mut self, rlabel: String)
        ensures
            final(self)@ == (MeterView { rlabel: rlabel@, ..old(self)@ }),
        no_unwind
    {
        self.rlabel = rlabel;
    }

    /// Replaces the value.
    pub fn set_value(&mut self, value: i32)
        ensures
            final(self)@ == (MeterView { value: value as int, ..old(self)@ }),
        no_unwind
    {
        self.value = value;
    }

    /// Replaces the value and its ceiling together.
    pub fn set_range(&mut self, value: i32, max_value: i32)
        ensures
            final(self)@ == (MeterView {
                value: value as int,
                max_value: max_value as int,
                ..old(self)@
            }),
        no_unwind
    {
        self.value = value;
        self.max_value = max_value;
    }

    /// The value.
    pub fn value(&self) -> (value: i32)
        ensures
            value == self@.value,
    {
        self.value
    }

    /// The ceiling of the value.
    pub fn max_value(&self) -> (max_value: i32)
        ensures
            max_value == self@.max_value,
    {
        self.max_value
    }

    /// The label in front of the indicator.
    pub fn label(&self) -> (label: &str)
        ensures
            label@ == self@.label,
    {
        self.label.as_str()
    }

    /// The label behind the indicator.
    pub fn rlabel(&self) -> (rlabel: &str)
        ensures
            rlabel@ == self@.rlabel,
    {
        self.rlabel.as_str()
    }

    /// Whether ANSI escape sequences may be sent.
    pub fn have_vt100(&self) -> (capable: bool)
        ensures
            capable == self@.have_vt100,
    {
        self.have_vt100
    }

    /// The output that moves the cursor back over the trailing label and
    /// the blank behind it.
    pub fn back_rlabel(&self) -> (out: String)
        ensures
            out@ == self@.back_text(),
    {
        let mut out = String::new();
        if self.rlabel.as_str().is_empty() {
            return out;
        }
        let length: usize = self.rlabel.as_str().len();
        if self.have_vt100 {
            push_cursor_left(&mut out, length as u128 + 1);
        } else {
            push_backspaces(&mut out, length);
            push_backspaces(&mut out, 1);
            proof {
                lemma_repeated_add('\x08', length as nat, 1);
            }
        }
        assert(out@ =~= self@.back_text());
        out
    }

    /// The output that wipes the trailing label from the screen and leaves
    /// the cursor where the label began.
    pub fn erase_rlabel(&self) -> (out: String)
        ensures
            out@ == self@.erase_text(),
    {
        let mut out = self.back_rlabel();
        if self.rlabel.as_str().is_empty() {
            return out;
        }
        if self.have_vt100 {
            push_erase_to_end(&mut out);
        } else {
            let length: usize = self.rlabel.as_str().len();
            push_spaces(&mut out, length);
            push_spaces(&mut out, 1);
            proof {
                lemma_repeated_add(' ', length as nat, 1);
            }
            let back = self.back_rlabel();
            out.append(back.as_str());
        }
        assert(out@ =~= self@.erase_text());
        out
    }

    /// Asks the rate limiter whether a redraw is due at `now`. If so, `now`
    /// becomes the time of the last redraw.
    pub fn need_update(&mut self, now: u64) -> (due: bool)
        ensures
            due == redraw_due(old(self)@.timestamp, now as nat),
            final(self)@ == old(self)@.asked_at(now as nat),
        no_unwind
    {
        if now >= self.timestamp && now - self.timestamp >= REDRAW_INTERVAL {
            self.timestamp = now;
            true
        } else {
            false
        }
    }
}

/// A value that was held to its range is within it: holding it again
/// changes nothing. Under a ceiling that is not negative the range is that
/// from 0 to the ceiling.
pub proof fn lemma_clamp_value(value: int, max_value: int)
    ensures
        clamp_value(clamp_value(value, max_value), max_value) == clamp_value(value, max_value),
        clamp_value(value, max_value) <= max_value,
        max_value >= 0 ==> 0 <= clamp_value(value, max_value),
        0 <= value <= max_value ==> clamp_value(value, max_value) == value,
{
}

/// Once a redraw was due and the rate limiter was asked, none is due until
/// the interval between two redraws has passed.
pub proof fn lemma_not_due_within_interval(meter: MeterView, first: nat, second: nat)
    requires
        redraw_due(meter.timestamp, first),
        second - first < REDRAW_INTERVAL,
    ensures
        !redraw_due(meter.asked_at(first).timestamp, second),
{
}

/// On a clock that does not run backwards, a redraw is due whenever the
/// interval between two redraws has passed since the rate limiter was last
/// asked, whatever it answered then.
pub proof fn lemma_due_after_interval(meter: MeterView, first: nat, second: nat)
    requires
        meter.timestamp <= first,
        second - first >= REDRAW_INTERVAL,
    ensures
        redraw_due(meter.asked_at(first).timestamp, second),
        redraw_due(meter.timestamp, second),
{
}

} // verus!
