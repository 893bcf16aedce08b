use progress::bar::{bar_units, BAR_WIDTH};
use progress::{Progress, ProgressBar};

#[test]
fn half_of_the_range_fills_half_of_the_bar() {
    let mut bar = ProgressBar::new_bar("", "", 2560, 20, false, 0);
    bar.set_value(1280);
    let glyphs = bar.make_bar();
    assert_eq!(glyphs, "|==========          |");
    assert_eq!(glyphs.matches('=').count(), 10);
    bar.set_value(2560);
    let glyphs = bar.make_bar();
    assert_eq!(glyphs, "|====================|");
    assert_eq!(glyphs.matches('=').count(), 20);
}

#[test]
fn a_bar_is_two_longer_than_its_width_and_stands_in_brackets() {
    for width in [3usize, 4, 20, 77] {
        for value in [-5, 0, 1, 50, 99, 100, 101] {
            let mut bar = ProgressBar::new_bar("", "", 100, width, false, 0);
            bar.set_value(value);
            let glyphs = bar.make_bar();
            assert_eq!(glyphs.len(), width + 2);
            assert!(glyphs.starts_with('|'));
            assert!(glyphs.ends_with('|'));
            let filled = bar_units(width, value, 100);
            assert_eq!(glyphs.matches('=').count(), filled);
            assert_eq!(glyphs.matches(' ').count(), width - filled);
            assert_eq!(&glyphs[1..1 + filled], "=".repeat(filled));
        }
    }
}

#[test]
fn filled_cells_are_rounded_to_the_nearest() {
    assert_eq!(bar_units(20, 0, 2560), 0);
    assert_eq!(bar_units(20, 63, 2560), 0);
    assert_eq!(bar_units(20, 64, 2560), 1);
    assert_eq!(bar_units(20, 1280, 2560), 10);
    assert_eq!(bar_units(20, 2495, 2560), 19);
    assert_eq!(bar_units(20, 2496, 2560), 20);
    assert_eq!(bar_units(20, 2560, 2560), 20);
    assert_eq!(bar_units(3, 1, 2), 2);
    assert_eq!(bar_units(7, 1, 3), 2);
}

#[test]
fn a_value_out_of_range_fills_none_or_all() {
    assert_eq!(bar_units(20, -1, 2560), 0);
    assert_eq!(bar_units(20, i32::MIN, 2560), 0);
    assert_eq!(bar_units(20, 2561, 2560), 20);
    assert_eq!(bar_units(20, i32::MAX, 2560), 20);
    assert_eq!(bar_units(20, i32::MAX, i32::MAX), 20);
}

#[test]
fn a_ceiling_of_zero_fills_nothing() {
    assert_eq!(bar_units(20, 0, 0), 0);
    assert_eq!(bar_units(20, 5, 0), 0);
    assert_eq!(bar_units(20, -5, 0), 0);
    let bar = ProgressBar::new(false, 0);
    assert_eq!(bar.make_bar(), "|                    |");
}

#[test]
fn a_negative_ceiling_fills_everything() {
    assert_eq!(bar_units(20, 0, -10), 20);
    assert_eq!(bar_units(20, -10, -10), 20);
    assert_eq!(bar_units(20, -500, -10), 20);
    assert_eq!(bar_units(20, 500, -10), 20);
    assert_eq!(bar_units(20, i32::MIN, i32::MIN), 20);
}

#[test]
fn a_very_wide_bar_does_not_overflow() {
    assert_eq!(bar_units(usize::MAX, 1, 2), usize::MAX / 2 + 1);
    assert_eq!(bar_units(usize::MAX, i32::MAX, i32::MAX), usize::MAX);
    assert_eq!(bar_units(usize::MAX, 0, i32::MAX), 0);
}

#[test]
fn a_bar_without_arguments_has_the_usual_width() {
    assert_eq!(BAR_WIDTH, 20);
    let bar = ProgressBar::new(false, 0);
    assert_eq!(bar.get_value(), 0);
    assert_eq!(bar.get_max_value(), 0);
    assert_eq!(bar.show(), "|                    | ");
}

#[test]
fn a_bar_is_shown_between_its_labels() {
    let bar = ProgressBar::new_bar("downloading", "linux.tar.gz", 2560, 20, false, 0);
    assert_eq!(bar.get_value(), 0);
    assert_eq!(bar.get_max_value(), 2560);
    assert_eq!(bar.show(), "downloading |                    | linux.tar.gz ");
    assert_eq!(bar.render(), bar.show());
}

#[test]
fn the_narrowest_bar_has_three_cells() {
    let mut bar = ProgressBar::new_bar("", "", 3, 3, false, 0);
    assert_eq!(bar.show(), "|   | ");
    bar.set_value(2);
    assert_eq!(bar.show(), "|== | ");
}

#[test]
fn labels_of_a_bar_are_replaced_without_drawing() {
    let mut bar = ProgressBar::new(false, 0);
    bar.set_label("copying");
    bar.set_rlabel("a.txt");
    bar.set_max_value(10);
    bar.set_value(5);
    assert_eq!(bar.show(), "copying |==========          | a.txt ");
    bar.set_label("");
    assert_eq!(bar.show(), "|==========          | a.txt ");
    bar.set_rlabel("");
    assert_eq!(bar.show(), "|==========          | ");
}

#[test]
fn set_value_holds_the_value_of_a_bar_to_its_range() {
    let mut bar = ProgressBar::new_bar("", "", 100, 10, false, 0);
    bar.set_value(150);
    assert_eq!(bar.get_value(), 100);
    bar.set_value(-150);
    assert_eq!(bar.get_value(), 0);
    bar.set_value(37);
    assert_eq!(bar.get_value(), 37);
}

#[test]
fn a_lower_ceiling_takes_the_value_of_a_bar_down_with_it() {
    let mut bar = ProgressBar::new_bar("", "", 100, 10, false, 0);
    bar.set_value(80);
    bar.set_max_value(50);
    assert_eq!(bar.get_max_value(), 50);
    assert_eq!(bar.get_value(), 50);
    assert_eq!(bar.show(), "|==========| ");
    bar.set_max_value(200);
    assert_eq!(bar.get_value(), 50);
    assert_eq!(bar.show(), "|===       | ");
}

#[test]
fn update_value_of_a_bar_draws_nothing_and_caches_nothing() {
    let mut bar = ProgressBar::new_bar("", "", 100, 10, false, 0);
    bar.set_value(50);
    bar.update_value(470);
    assert_eq!(bar.get_value(), 100);
    assert_eq!(bar.make_bar(), "|==========|");
    assert_eq!(bar.show(), "|=====     | ");
    bar.update_value(-470);
    assert_eq!(bar.get_value(), 0);
}

#[test]
fn an_update_of_a_bar_within_the_interval_draws_nothing() {
    let mut bar = ProgressBar::new_bar("downloading", "linux.tar.gz", 2560, 20, false, 1000);
    assert_eq!(bar.update(640, 1000), None);
    assert_eq!(bar.update(1280, 1249), None);
    assert_eq!(bar.get_value(), 1280);
}

#[test]
fn an_update_of_a_bar_after_the_interval_redraws_in_place_by_backspaces() {
    let mut bar = ProgressBar::new_bar("downloading", "linux.tar.gz", 2560, 20, false, 1000);
    let out = bar.update(640, 1250);
    let expected = format!(
        "{}{}|=====               | linux.tar.gz ",
        "\x08".repeat(13),
        "\x08".repeat(23)
    );
    assert_eq!(out, Some(expected));
    assert_eq!(bar.get_value(), 640);
}

#[test]
fn an_update_of_a_bar_after_the_interval_redraws_in_place_by_an_escape_sequence() {
    let mut bar = ProgressBar::new_bar("downloading", "linux.tar.gz", 2560, 20, true, 1000);
    let out = bar.update(640, 1250);
    let expected = format!("\x1b[13D{}|=====               | linux.tar.gz ", "\x08".repeat(23));
    assert_eq!(out, Some(expected));
}

#[test]
fn a_bar_without_trailing_label_is_redrawn_alone() {
    let mut bar = ProgressBar::new_bar("x", "", 4, 4, true, 0);
    assert_eq!(bar.update(1, 250), Some(String::from("\x08\x08\x08\x08\x08\x08\x08|=   | ")));
}

#[test]
fn an_update_that_leaves_the_bar_as_it_is_draws_nothing() {
    let mut bar = ProgressBar::new_bar("", "", 2560, 20, false, 0);
    assert!(bar.update(640, 250).is_some());
    assert_eq!(bar.update(640, 500), None);
    assert_eq!(bar.update(641, 750), None);
    assert_eq!(bar.update(700, 1000), None);
    assert_eq!(bar.get_value(), 700);
    assert!(bar.update(1280, 1250).is_some());
}

#[test]
fn the_same_value_twice_redraws_a_bar_at_most_once() {
    let mut first = ProgressBar::new_bar("", "", 2560, 20, false, 0);
    assert!(first.update(640, 250).is_some());
    assert_eq!(first.update(640, 500), None);
    let mut second = ProgressBar::new_bar("", "", 2560, 20, false, 0);
    assert_eq!(second.update(640, 100), None);
    assert!(second.update(640, 250).is_some());
    assert_eq!(second.update(640, 500), None);
}

#[test]
fn two_updates_of_a_bar_within_the_interval_redraw_at_most_once() {
    let mut bar = ProgressBar::new_bar("", "", 2560, 20, false, 0);
    assert!(bar.update(640, 250).is_some());
    assert_eq!(bar.update(1280, 499), None);
    assert!(bar.update(1280, 500).is_some());
    assert!(bar.update(1920, 750).is_some());
}

#[test]
fn a_bar_asks_the_rate_limiter_before_it_looks_at_the_glyphs() {
    let mut bar = ProgressBar::new_bar("", "", 2560, 20, false, 0);
    assert_eq!(bar.update(0, 250), Some(format!("{}|                    | ", "\x08".repeat(23))));
    assert_eq!(bar.update(0, 500), None);
    assert_eq!(bar.update(1280, 600), None);
    assert!(bar.update(1280, 750).is_some());
}

#[test]
fn an_update_of_a_bar_holds_the_value_to_its_range() {
    let mut bar = ProgressBar::new_bar("", "", 10, 5, false, 0);
    let out = bar.update(70, 250);
    assert_eq!(bar.get_value(), 10);
    assert_eq!(out, Some(format!("{}|=====| ", "\x08".repeat(8))));
    assert_eq!(bar.update(-70, 300), None);
    assert_eq!(bar.get_value(), 0);
}

#[test]
fn a_bar_is_redrawn_on_request() {
    let mut bar = ProgressBar::new_bar("get", "it", 4, 4, false, 0);
    bar.set_value(3);
    assert_eq!(bar.update_display(), "\x08\x08\x08\x08\x08\x08\x08\x08\x08\x08|=== | it ");
}

#[test]
fn a_bar_finishes_with_the_last_value_and_a_newline() {
    let mut bar = ProgressBar::new_bar("downloading", "linux.tar.gz", 2560, 20, false, 0);
    bar.set_value(bar.get_max_value());
    let expected = format!(
        "{}{}|====================| linux.tar.gz \n",
        "\x08".repeat(13),
        "\x08".repeat(23)
    );
    assert_eq!(bar.finish(), expected);
}

#[test]
fn a_bar_finishes_with_a_value_that_no_update_has_drawn() {
    let mut bar = ProgressBar::new_bar("", "", 4, 4, true, 0);
    assert_eq!(bar.update(4, 100), None);
    assert_eq!(bar.finish(), "\x08\x08\x08\x08\x08\x08\x08|====| \n");
}

#[test]
fn a_bar_is_hidden_by_an_escape_sequence() {
    let bar = ProgressBar::new_bar("downloading", "linux.tar.gz", 2560, 20, true, 0);
    assert_eq!(bar.hide_line(), "\r\x1b[K");
}

#[test]
fn a_bar_is_hidden_by_blanks() {
    let bar = ProgressBar::new_bar("downloading", "linux.tar.gz", 2560, 20, false, 0);
    assert_eq!(bar.hide_line(), format!("\r{}\r", " ".repeat(48)));
    let bare = ProgressBar::new_bar("", "", 2560, 3, false, 0);
    assert_eq!(bare.hide_line(), format!("\r{}\r", " ".repeat(6)));
}

#[test]
fn filled_cells_are_the_rounded_share_of_the_width() {
    for width in [3usize, 10, 20, 64, 1000] {
        for max_value in [1, 2, 3, 7, 100, 2560, 65536, i32::MAX] {
            let step = (max_value / 500).max(1);
            let mut value = 0;
            loop {
                let share = width as f64 * f64::from(value) / f64::from(max_value);
                assert_eq!(bar_units(width, value, max_value), (share + 0.5).floor() as usize);
                if value > max_value - step {
                    break;
                }
                value += step;
            }
            assert_eq!(bar_units(width, max_value, max_value), width);
        }
    }
}

#[test]
fn a_bar_is_hidden_by_as_many_blanks_as_its_line_is_long() {
    let labels = [("", ""), ("get", ""), ("", "it"), ("get", "it"), ("\u{e9}t\u{e9}", "")];
    for (label, rlabel) in labels {
        let mut bar = ProgressBar::new_bar(label, rlabel, 10, 7, false, 0);
        bar.set_value(4);
        assert_eq!(bar.hide_line(), format!("\r{}\r", " ".repeat(bar.show().len())));
    }
}
