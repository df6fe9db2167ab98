use diced::{Args, Die};

fn args_for(dice: Vec<String>) -> Args {
    Args {
        dice,
        color: false,
        sum: false,
        count: false,
        painful: false,
        profile: None,
    }
}

#[test]
fn samples_stay_in_range() {
    let d = Die::new(50, 6, 0).unwrap();
    let mut rng = rand::thread_rng();
    let rolls = diced::roll_pool(&d, &mut rng);
    assert_eq!(rolls.len(), 50);
    for r in rolls {
        assert!((1..=6).contains(&r));
    }
}

#[test]
fn one_sided_die_always_rolls_one() {
    let d = Die::new(20, 1, 0).unwrap();
    let mut rng = rand::thread_rng();
    let rolls = diced::roll_pool(&d, &mut rng);
    assert!(rolls.iter().all(|r| *r == 1));
}

#[test]
fn single_d20_rolls_one_value_in_range() {
    let args = args_for(vec!["1d20".to_string()]);
    let dice = diced::parse(&args).unwrap();
    assert_eq!(dice.len(), 1);
    assert_eq!(dice[0].quantity(), 1);
    assert_eq!(dice[0].size(), 20);
    assert_eq!(dice[0].modifier(), 0);
    let mut rng = rand::thread_rng();
    let rep = diced::roll_die(&dice[0], &args, &mut rng);
    assert_eq!(rep.rolls.len(), 1);
    assert!((1..=20).contains(&rep.rolls[0]));
}

#[test]
fn two_d6_plus_one_sums_its_shown_values() {
    let mut args = args_for(vec!["2d6+1".to_string()]);
    args.sum = true;
    let dice = diced::parse(&args).unwrap();
    let mut rng = rand::thread_rng();
    let rep = diced::roll_die(&dice[0], &args, &mut rng);
    assert_eq!(rep.displayed.len(), 2);
    for v in &rep.displayed {
        assert!((2..=7).contains(v));
    }
    let total: i64 = rep.displayed.iter().map(|v| *v as i64).sum();
    let expected = format!(
        "=> ({}, {}): [{}]",
        rep.displayed[0], rep.displayed[1], total
    );
    assert_eq!(rep.lines[1], expected);
}

#[test]
fn count_mode_reports_crits() {
    let d = Die::new(3, 6, 2).unwrap();
    let rolls = vec![6u16, 1u16, 6u16];
    let (successes, failures) = diced::eval_counts(&d, &rolls);
    assert_eq!(successes, 2);
    assert_eq!(failures, 1);
}

#[test]
fn sum_applies_modifier_per_die() {
    let d = Die::new(3, 6, 2).unwrap();
    let rolls = vec![1u16, 5u16, 6u16];
    assert_eq!(diced::eval_sum(&d, &rolls), 12 + 3 * 2);
}

#[test]
fn negative_sum_is_possible() {
    let d = Die::new(2, 4, -10).unwrap();
    let rolls = vec![1u16, 2u16];
    assert_eq!(diced::eval_sum(&d, &rolls), 3 - 20);
}

#[test]
fn painless_mode_never_rerolls() {
    let mut rng = rand::thread_rng();
    for _ in 0..200 {
        assert!(!diced::reroll_happens(&mut rng, false));
    }
}

#[test]
fn painful_mode_rerolls_sometimes_but_not_always() {
    let mut rng = rand::thread_rng();
    let mut rerolled = 0u32;
    let mut kept = 0u32;
    for _ in 0..1000 {
        if diced::reroll_happens(&mut rng, true) {
            rerolled += 1;
        } else {
            kept += 1;
        }
    }
    assert!(rerolled > 0);
    assert!(kept > 0);
}

#[test]
fn color_paints_forced_failures() {
    // every roll of a one-sided die is both min and max; at one it is
    // rendered in the failure style
    let mut args = args_for(vec!["3d1".to_string()]);
    args.color = true;
    let dice = diced::parse(&args).unwrap();
    let mut rng = rand::thread_rng();
    let rep = diced::roll_die(&dice[0], &args, &mut rng);
    let red = ansi_term::Colour::Red.bold().paint("1").to_string();
    assert_eq!(rep.lines[1], format!("=> ({}, {}, {})", red, red, red));
}

#[test]
fn color_paints_forced_successes() {
    // with a modifier the displayed value leaves the failure range but
    // still reaches the size, so it lands in the success style
    let mut args = args_for(vec!["1d1+5".to_string()]);
    args.color = true;
    let dice = diced::parse(&args).unwrap();
    let mut rng = rand::thread_rng();
    let rep = diced::roll_die(&dice[0], &args, &mut rng);
    let blue = ansi_term::Colour::Blue.bold().paint("6").to_string();
    assert_eq!(rep.lines[1], format!("=> ({})", blue));
}

#[test]
fn report_lines_come_in_pairs() {
    let args = args_for(vec!["2d8".to_string()]);
    let dice = diced::parse(&args).unwrap();
    let mut rng = rand::thread_rng();
    let rep = diced::roll_die(&dice[0], &args, &mut rng);
    assert_eq!(rep.lines.len(), 2);
    assert_eq!(rep.lines[0], "2d8:");
    assert!(rep.lines[1].starts_with("=> ("));
}
