use progress::{Progress, ProgressBar, ProgressPercent, ProgressSpinner};

/// One line of a terminal: what stands in its cells, and where the cursor is.
struct Line {
    cells: Vec<char>,
    cursor: usize,
}

impl Line {
    fn new() -> Line {
        Line { cells: Vec::new(), cursor: 0 }
    }

    /// Takes output as a terminal does. Escape sequences are obeyed only by
    /// a terminal that understands them.
    fn write(&mut self, text: &str, vt100: bool) {
        let chars: Vec<char> = text.chars().collect();
        let mut at = 0;
        while at < chars.len() {
            let c = chars[at];
            at += 1;
            if c == '\r' {
                self.cursor = 0;
            } else if c == '\x08' {
                assert!(self.cursor > 0, "the cursor was sent past the start of the line");
                self.cursor -= 1;
            } else if c == '\x1b' {
                assert!(vt100, "an escape sequence was sent to a terminal that has none");
                assert_eq!(chars[at], '[');
                at += 1;
                let mut count = 0;
                while chars[at].is_ascii_digit() {
                    count = count * 10 + chars[at].to_digit(10).unwrap() as usize;
                    at += 1;
                }
                if chars[at] == 'K' {
                    self.cells.truncate(self.cursor);
                } else {
                    assert_eq!(chars[at], 'D');
                    assert!(self.cursor >= count, "the cursor was sent past the start of the line");
                    self.cursor -= count;
                }
                at += 1;
            } else {
                assert_ne!(c, '\n');
                while self.cells.len() <= self.cursor {
                    self.cells.push(' ');
                }
                self.cells[self.cursor] = c;
                self.cursor += 1;
            }
        }
    }

    /// What is to be seen on the line.
    fn seen(&self) -> String {
        let text: String = self.cells.iter().collect();
        String::from(text.trim_end())
    }
}

fn fresh(text: &str, vt100: bool) -> Line {
    let mut line = Line::new();
    line.write(text, vt100);
    line
}

#[test]
fn a_bar_shown_again_after_hiding_leaves_nothing_of_the_old_line() {
    for vt100 in [false, true] {
        let mut bar = ProgressBar::new_bar("downloading", "linux.tar.gz", 2560, 20, vt100, 0);
        let mut line = Line::new();
        line.write(&bar.show(), vt100);
        line.write(&bar.update(2560, 250).unwrap(), vt100);
        assert_eq!(line.seen(), "downloading |====================| linux.tar.gz");
        bar.set_value(0);
        line.write(&bar.hide_line(), vt100);
        assert_eq!(line.seen(), "");
        assert_eq!(line.cursor, 0);
        line.write(&bar.show(), vt100);
        let expected = fresh(&bar.show(), vt100);
        assert_eq!(line.seen(), "downloading |                    | linux.tar.gz");
        assert_eq!(line.seen(), expected.seen());
        assert_eq!(line.cursor, expected.cursor);
    }
}

#[test]
fn a_percentage_shown_again_after_hiding_leaves_nothing_of_the_old_line() {
    for vt100 in [false, true] {
        let mut percent = ProgressPercent::new_percent("processing", "done", 2560, vt100, 0);
        let mut line = Line::new();
        line.write(&percent.show(), vt100);
        line.write(&percent.update(2560, 250).unwrap(), vt100);
        assert_eq!(line.seen(), "processing 100% done");
        percent.set_value(384);
        line.write(&percent.hide_line(), vt100);
        assert_eq!(line.seen(), "");
        assert_eq!(line.cursor, 0);
        line.write(&percent.show(), vt100);
        let expected = fresh(&percent.show(), vt100);
        assert_eq!(line.seen(), "processing  15% done");
        assert_eq!(line.seen(), expected.seen());
        assert_eq!(line.cursor, expected.cursor);
    }
}

#[test]
fn a_spinner_shown_again_after_hiding_leaves_nothing_of_the_old_line() {
    for vt100 in [false, true] {
        let mut spinner = ProgressSpinner::new_spinner("working", "(please wait)", vt100, 0);
        let mut line = Line::new();
        line.write(&spinner.show(), vt100);
        line.write(&spinner.update(0, 250).unwrap(), vt100);
        assert_eq!(line.seen(), "working / (please wait)");
        line.write(&spinner.hide_line(), vt100);
        assert_eq!(line.seen(), "");
        assert_eq!(line.cursor, 0);
        line.write(&spinner.show(), vt100);
        let expected = fresh(&spinner.show(), vt100);
        assert_eq!(line.seen(), expected.seen());
        assert_eq!(line.cursor, expected.cursor);
    }
}

#[test]
fn an_indicator_without_labels_is_hidden_whole() {
    for vt100 in [false, true] {
        let bar = ProgressBar::new(vt100, 0);
        let mut line = fresh(&bar.show(), vt100);
        line.write(&bar.hide_line(), vt100);
        assert_eq!(line.seen(), "");
        let percent = ProgressPercent::new(vt100, 0);
        let mut line = fresh(&percent.show(), vt100);
        line.write(&percent.hide_line(), vt100);
        assert_eq!(line.seen(), "");
        let spinner = ProgressSpinner::new(vt100, 0);
        let mut line = fresh(&spinner.show(), vt100);
        line.write(&spinner.hide_line(), vt100);
        assert_eq!(line.seen(), "");
    }
}

#[test]
fn a_redraw_in_place_ends_where_the_line_ended() {
    for vt100 in [false, true] {
        let mut bar = ProgressBar::new_bar("downloading", "linux.tar.gz", 2560, 20, vt100, 0);
        let mut line = fresh(&bar.show(), vt100);
        let end = line.cursor;
        line.write(&bar.update(1280, 250).unwrap(), vt100);
        assert_eq!(line.seen(), "downloading |==========          | linux.tar.gz");
        assert_eq!(line.cursor, end);
        bar.set_rlabel("linux.tar");
        line.write(&bar.update(2560, 500).unwrap(), vt100);
        let mut percent = ProgressPercent::new_percent("processing", "done", 2560, vt100, 0);
        let mut line = fresh(&percent.show(), vt100);
        let end = line.cursor;
        line.write(&percent.update(1280, 250).unwrap(), vt100);
        assert_eq!(line.seen(), "processing  50% done");
        assert_eq!(line.cursor, end);
        let mut spinner = ProgressSpinner::new_spinner("working", "(please wait)", vt100, 0);
        let mut line = fresh(&spinner.show(), vt100);
        let end = line.cursor;
        line.write(&spinner.update(0, 250).unwrap(), vt100);
        assert_eq!(line.seen(), "working / (please wait)");
        assert_eq!(line.cursor, end);
    }
}

#[test]
fn both_kinds_of_terminal_show_the_same() {
    let mut plain = ProgressBar::new_bar("downloading", "linux.tar.gz", 2560, 20, false, 0);
    let mut ansi = ProgressBar::new_bar("downloading", "linux.tar.gz", 2560, 20, true, 0);
    let mut plain_line = fresh(&plain.show(), false);
    let mut ansi_line = fresh(&ansi.show(), true);
    for step in 1..=8u64 {
        let value = step as i32 * 320;
        plain_line.write(&plain.update(value, step * 250).unwrap(), false);
        ansi_line.write(&ansi.update(value, step * 250).unwrap(), true);
        assert_eq!(plain_line.seen(), ansi_line.seen());
        assert_eq!(plain_line.cursor, ansi_line.cursor);
    }
    assert_eq!(plain_line.seen(), "downloading |====================| linux.tar.gz");
}

#[test]
fn erasing_the_trailing_label_leaves_the_cursor_where_the_label_began() {
    for vt100 in [false, true] {
        let spinner = ProgressSpinner::new_spinner("working", "(please wait)", vt100, 0);
        let mut line = fresh(&spinner.show(), vt100);
        let finish = spinner.finish();
        line.write(finish.strip_suffix('\n').unwrap(), vt100);
        assert_eq!(line.seen(), "working (please wait)");
        assert_eq!(line.cursor, "working (please wait)".len());
    }
}

#[test]
fn a_line_with_labels_beyond_ascii_is_hidden_whole() {
    for vt100 in [false, true] {
        let mut bar = ProgressBar::new_bar("\u{e9}t\u{e9}", "caf\u{e9}", 10, 5, vt100, 0);
        let mut line = fresh(&bar.show(), vt100);
        assert_eq!(line.seen(), "\u{e9}t\u{e9} |     | caf\u{e9}");
        bar.set_value(10);
        line.write(&bar.hide_line(), vt100);
        assert_eq!(line.seen(), "");
        assert_eq!(line.cursor, 0);
        line.write(&bar.show(), vt100);
        assert_eq!(line.seen(), "\u{e9}t\u{e9} |=====| caf\u{e9}");
        let percent = ProgressPercent::new_percent("\u{e9}t\u{e9}", "caf\u{e9}", 10, vt100, 0);
        let mut line = fresh(&percent.show(), vt100);
        line.write(&percent.hide_line(), vt100);
        assert_eq!(line.seen(), "");
        let spinner = ProgressSpinner::new_spinner("\u{e9}t\u{e9}", "caf\u{e9}", vt100, 0);
        let mut line = fresh(&spinner.show(), vt100);
        line.write(&spinner.hide_line(), vt100);
        assert_eq!(line.seen(), "");
    }
}

#[test]
fn a_line_with_one_label_is_hidden_by_blanks_to_its_end_and_no_further() {
    let bar = ProgressBar::new_bar("get", "", 10, 5, false, 0);
    let mut line = fresh(&bar.show(), false);
    let end = line.cursor;
    line.write(bar.hide_line().strip_suffix('\r').unwrap(), false);
    assert_eq!(line.cursor, end);
    assert_eq!(line.seen(), "");
    let spinner = ProgressSpinner::new_spinner("", "on", false, 0);
    let mut line = fresh(&spinner.show(), false);
    let end = line.cursor;
    line.write(spinner.hide_line().strip_suffix('\r').unwrap(), false);
    assert_eq!(line.cursor, end);
    let percent = ProgressPercent::new(false, 0);
    let mut line = fresh(&percent.show(), false);
    let end = line.cursor;
    line.write(percent.hide_line().strip_suffix('\r').unwrap(), false);
    assert_eq!(line.cursor, end);
}
