//! Textual progress indicators for one line of a terminal: a bar, a
//! percentage and a spinner.
//!
//! An indicator is made, shown once, updated as the work goes on, and
//! finished. It keeps the state and decides what is drawn and when. It
//! neither writes to the terminal nor reads the clock: every operation that
//! changes the screen returns the text to write, and `update` takes the time
//! of the call. The caller writes what it is given at once and in order, and
//! writes nothing else while an indicator is on the line.
//!
//! Cursor movements and blanks are counted in the bytes of the labels.
//! What the output does on the screen is proved in `screen`: that a hidden
//! line leaves nothing behind, for labels without control characters, and
//! that a redraw in place leaves the line as if written anew, for labels of
//! printable ASCII, each byte of which takes one cell.

pub mod bar;
pub mod meter;
pub mod percent;
pub mod progress;
pub mod rounding;
pub mod screen;
pub mod spinner;
pub mod text;

pub use bar::ProgressBar;
pub use meter::ProgressMeter;
pub use percent::ProgressPercent;
pub use progress::Progress;
pub use spinner::ProgressSpinner;
