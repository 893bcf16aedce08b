use progress::spinner::FRAMES;
use progress::{Progress, ProgressSpinner};

#[test]
fn a_spinner_is_shown_between_its_labels() {
    let spinner = ProgressSpinner::new_spinner("working", "(please wait)", false, 0);
    assert_eq!(spinner.get_value(), 0);
    assert_eq!(spinner.get_max_value(), 0);
    assert_eq!(spinner.show(), "working | (please wait) ");
    assert_eq!(spinner.render(), spinner.show());
}

#[test]
fn a_spinner_without_arguments_is_bare() {
    let spinner = ProgressSpinner::new(true, 0);
    assert_eq!(spinner.show(), "| ");
}

#[test]
fn labels_of_a_spinner_are_replaced_without_drawing() {
    let mut spinner = ProgressSpinner::new(false, 0);
    spinner.set_label("working");
    spinner.set_rlabel("(please wait)");
    assert_eq!(spinner.show(), "working | (please wait) ");
}

#[test]
fn the_glyphs_come_in_their_order_and_begin_again() {
    assert_eq!(FRAMES, 4);
    let mut spinner = ProgressSpinner::new(false, 0);
    let mut seen = String::new();
    for tick in 1..=9u64 {
        let out = spinner.update(0, tick * 250);
        assert_eq!(out, Some(format!("\x08\x08{}", &spinner.show())));
        seen.push_str(&spinner.show());
    }
    assert_eq!(seen, "/ - \\ | / - \\ | / ");
}

#[test]
fn the_value_given_to_a_spinner_plays_no_part() {
    let mut one = ProgressSpinner::new(false, 0);
    let mut other = ProgressSpinner::new(false, 0);
    for (tick, value) in [i32::MIN, -1, 0, 1, 3, 4, 1000, i32::MAX].into_iter().enumerate() {
        let now = (tick as u64 + 1) * 250;
        assert_eq!(one.update(value, now), other.update(1, now));
        assert_eq!(one.get_value(), other.get_value());
    }
    assert_eq!(one.get_value(), 0);
}

#[test]
fn update_value_turns_a_spinner_by_one_frame() {
    let mut spinner = ProgressSpinner::new(false, 0);
    spinner.update_value(77);
    assert_eq!(spinner.get_value(), 1);
    spinner.update_value(77);
    assert_eq!(spinner.get_value(), 2);
    spinner.update_value(77);
    assert_eq!(spinner.get_value(), 3);
    spinner.update_value(77);
    assert_eq!(spinner.get_value(), 0);
}

#[test]
fn an_update_of_a_spinner_within_the_interval_does_nothing() {
    let mut spinner = ProgressSpinner::new_spinner("working", "(please wait)", false, 1000);
    assert_eq!(spinner.update(1, 1000), None);
    assert_eq!(spinner.update(1, 1249), None);
    assert_eq!(spinner.get_value(), 0);
}

#[test]
fn an_update_of_a_spinner_after_the_interval_redraws_in_place_by_backspaces() {
    let mut spinner = ProgressSpinner::new_spinner("working", "(please wait)", false, 1000);
    let out = spinner.update(1, 1250);
    assert_eq!(out, Some(format!("{}/ (please wait) ", "\x08".repeat(16))));
    assert_eq!(spinner.get_value(), 1);
}

#[test]
fn an_update_of_a_spinner_after_the_interval_redraws_in_place_by_an_escape_sequence() {
    let mut spinner = ProgressSpinner::new_spinner("working", "(please wait)", true, 1000);
    let out = spinner.update(1, 1250);
    assert_eq!(out, Some(String::from("\x1b[14D\x08\x08/ (please wait) ")));
}

#[test]
fn every_update_of_a_spinner_that_is_due_redraws() {
    let mut spinner = ProgressSpinner::new(false, 0);
    assert!(spinner.update(5, 250).is_some());
    assert!(spinner.update(5, 500).is_some());
    assert!(spinner.update(5, 750).is_some());
}

#[test]
fn two_updates_of_a_spinner_within_the_interval_redraw_at_most_once() {
    let mut spinner = ProgressSpinner::new(false, 0);
    assert!(spinner.update(1, 250).is_some());
    assert_eq!(spinner.update(1, 499), None);
    assert_eq!(spinner.get_value(), 1);
    assert!(spinner.update(1, 500).is_some());
    assert_eq!(spinner.get_value(), 2);
}

#[test]
fn a_spinner_has_no_value_to_set() {
    let mut spinner = ProgressSpinner::new(false, 0);
    spinner.update_value(0);
    spinner.update_value(0);
    assert_eq!(spinner.get_value(), 2);
    spinner.set_max_value(100);
    assert_eq!(spinner.get_max_value(), 0);
    assert_eq!(spinner.get_value(), 2);
    spinner.set_value(3);
    assert_eq!(spinner.get_value(), 0);
    assert_eq!(spinner.get_max_value(), 0);
    assert_eq!(spinner.show(), "| ");
}

#[test]
fn a_spinner_is_redrawn_on_request() {
    let mut spinner = ProgressSpinner::new_spinner("", "ok", true, 0);
    spinner.update_value(0);
    spinner.update_value(0);
    assert_eq!(spinner.update_display(), "\x1b[3D\x08\x08- ok ");
}

#[test]
fn a_spinner_leaves_its_trailing_label_behind_when_it_finishes() {
    let plain = ProgressSpinner::new_spinner("working", "(please wait)", false, 0);
    let expected = format!(
        "{}{}{}\x08\x08  \x08\x08(please wait)\n",
        "\x08".repeat(14),
        " ".repeat(14),
        "\x08".repeat(14)
    );
    assert_eq!(plain.finish(), expected);
    let ansi = ProgressSpinner::new_spinner("working", "(please wait)", true, 0);
    assert_eq!(ansi.finish(), "\x1b[14D\x1b[K\x08\x08  \x08\x08(please wait)\n");
}

#[test]
fn a_spinner_without_trailing_label_finishes_with_a_newline() {
    let spinner = ProgressSpinner::new_spinner("working", "", true, 0);
    assert_eq!(spinner.finish(), "\x08\x08  \x08\x08\n");
}

#[test]
fn a_spinner_is_hidden_by_an_escape_sequence() {
    let spinner = ProgressSpinner::new_spinner("working", "(please wait)", true, 0);
    assert_eq!(spinner.hide_line(), "\r\x1b[K");
}

#[test]
fn a_spinner_is_hidden_by_blanks() {
    let spinner = ProgressSpinner::new_spinner("working", "(please wait)", false, 0);
    assert_eq!(spinner.hide_line(), format!("\r{}\r", " ".repeat(24)));
    let bare = ProgressSpinner::new(false, 0);
    assert_eq!(bare.hide_line(), format!("\r{}\r", " ".repeat(2)));
}

#[test]
fn a_spinner_is_hidden_by_as_many_blanks_as_its_line_is_long() {
    for (label, rlabel) in [("", ""), ("go", ""), ("", "on"), ("go", "on"), ("\u{e9}t\u{e9}", "")] {
        let spinner = ProgressSpinner::new_spinner(label, rlabel, false, 0);
        assert_eq!(spinner.hide_line(), format!("\r{}\r", " ".repeat(spinner.show().len())));
    }
}
