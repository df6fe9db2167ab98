use diced::{Args, Die};

fn plain_args() -> Args {
    Args {
        dice: vec![],
        color: false,
        sum: false,
        count: false,
        painful: false,
        profile: None,
    }
}

#[test]
fn header_without_modifier() {
    let d = Die::new(2, 6, 0).unwrap();
    assert_eq!(diced::header_line(&d), "2d6:");
}

#[test]
fn header_with_positive_modifier() {
    let d = Die::new(2, 6, 1).unwrap();
    assert_eq!(diced::header_line(&d), "2d6 +1:");
}

#[test]
fn header_with_negative_modifier() {
    let d = Die::new(1, 20, -3).unwrap();
    assert_eq!(diced::header_line(&d), "1d20 -3:");
}

#[test]
fn header_with_extreme_modifier() {
    let d = Die::new(1, 20, -32768).unwrap();
    assert_eq!(diced::header_line(&d), "1d20 -32768:");
}

#[test]
fn plain_result_line() {
    let d = Die::new(2, 6, 0).unwrap();
    let rolls = vec![3u16, 4u16];
    let lines = diced::render_rolls(&d, &rolls, &plain_args());
    assert_eq!(lines, vec!["2d6:".to_string(), "=> (3, 4)".to_string()]);
}

#[test]
fn sum_result_line() {
    let d = Die::new(2, 6, 1).unwrap();
    let rolls = vec![3u16, 6u16];
    let mut args = plain_args();
    args.sum = true;
    let lines = diced::render_rolls(&d, &rolls, &args);
    // displayed values carry the modifier; the sum adds it once per die
    assert_eq!(lines[1], "=> (4, 7): [11]");
}

#[test]
fn count_result_line() {
    let d = Die::new(2, 6, 0).unwrap();
    let rolls = vec![6u16, 1u16];
    let mut args = plain_args();
    args.count = true;
    let lines = diced::render_rolls(&d, &rolls, &args);
    assert_eq!(lines[1], "=> (6, 1): [crit successes: 1, crit failures: 1]");
}

#[test]
fn color_marks_failures_red() {
    let painted = diced::die_format(1, 6, true);
    let expected = ansi_term::Colour::Red.bold().paint("1").to_string();
    assert_eq!(painted, expected);
    assert_ne!(painted, "1");
}

#[test]
fn color_marks_successes_blue() {
    let painted = diced::die_format(6, 6, true);
    let expected = ansi_term::Colour::Blue.bold().paint("6").to_string();
    assert_eq!(painted, expected);
    assert_ne!(painted, "6");
}

#[test]
fn color_leaves_middle_values_plain() {
    assert_eq!(diced::die_format(3, 6, true), "3");
}

#[test]
fn no_color_leaves_everything_plain() {
    assert_eq!(diced::die_format(1, 6, false), "1");
    assert_eq!(diced::die_format(6, 6, false), "6");
    assert_eq!(diced::die_format(-5, 6, false), "-5");
}

#[test]
fn displayed_value_adds_modifier() {
    assert_eq!(diced::displayed_value(6, 1), 7);
    assert_eq!(diced::displayed_value(5, -10), -5);
}

#[test]
fn displayed_value_wraps_on_overflow() {
    // the modifier addition wraps around the sixteen-bit signed range
    assert_eq!(diced::displayed_value(65535, 100), 99);
    assert_eq!(diced::displayed_value(32768, 0), -32768);
}

#[test]
fn label_shows_size_only() {
    let d = Die::new(3, 12, 5).unwrap();
    assert_eq!(d.label(), "d12");
}

#[test]
fn zero_renders_as_single_digit() {
    assert_eq!(diced::die_format(0, 6, false), "0");
}

#[test]
fn notice_uses_singular_for_one_die() {
    let d = Die::new(1, 6, 0).unwrap();
    assert_eq!(
        diced::reroll_notice(&d),
        "Your die rolled off the table. Doesn't count!"
    );
}

#[test]
fn notice_uses_plural_for_many_dice() {
    let d = Die::new(3, 6, 0).unwrap();
    assert_eq!(
        diced::reroll_notice(&d),
        "Your dice rolled off the table. Doesn't count!"
    );
}
