use diced::{Args, DiceError, Die, ErrKind};

fn args_with(dice: Vec<String>) -> Args {
    Args { dice, color: false, sum: false, count: false, painful: false, profile: None }
}

#[test]
fn parse_basic_d20() {
    let d = diced::parse_die("1d20").unwrap();
    assert_eq!(d.quantity(), 1);
    assert_eq!(d.size(), 20);
    assert_eq!(d.modifier(), 0);
}

#[test]
fn parse_with_positive_modifier() {
    let d = diced::parse_die("2d6+1").unwrap();
    assert_eq!(d.quantity(), 2);
    assert_eq!(d.size(), 6);
    assert_eq!(d.modifier(), 1);
}

#[test]
fn parse_with_negative_modifier() {
    let d = diced::parse_die("3d8-2").unwrap();
    assert_eq!(d.quantity(), 3);
    assert_eq!(d.size(), 8);
    assert_eq!(d.modifier(), -2);
}

#[test]
fn parse_slash_separator() {
    let d = diced::parse_die("4/10").unwrap();
    assert_eq!(d.quantity(), 4);
    assert_eq!(d.size(), 10);
    assert_eq!(d.modifier(), 0);
}

#[test]
fn parse_backslash_separator() {
    let d = diced::parse_die("2\\6").unwrap();
    assert_eq!(d.quantity(), 2);
    assert_eq!(d.size(), 6);
}

#[test]
fn parse_leading_zeros() {
    let d = diced::parse_die("007d08").unwrap();
    assert_eq!(d.quantity(), 7);
    assert_eq!(d.size(), 8);
}

#[test]
fn parse_embedded_expression() {
    // the leftmost match wins; what stands around it is ignored
    let d = diced::parse_die("xx12d6yy").unwrap();
    assert_eq!(d.quantity(), 12);
    assert_eq!(d.size(), 6);
    assert_eq!(d.modifier(), 0);
}

#[test]
fn parse_trailing_sign_without_digits() {
    let d = diced::parse_die("2d6+").unwrap();
    assert_eq!(d.quantity(), 2);
    assert_eq!(d.size(), 6);
    assert_eq!(d.modifier(), 0);
}

#[test]
fn parse_rejects_garbage() {
    let e = diced::parse_die("abc").unwrap_err();
    assert_eq!(e.kind(), ErrKind::MalformedExpression);
    assert_eq!(e.message(), "invalid die expression: abc");
}

#[test]
fn parse_rejects_big_quantity() {
    let e = diced::parse_die("70000d6").unwrap_err();
    assert_eq!(e.kind(), ErrKind::NumericOverflow);
}

#[test]
fn parse_rejects_big_size() {
    let e = diced::parse_die("1d99999").unwrap_err();
    assert_eq!(e.kind(), ErrKind::NumericOverflow);
}

#[test]
fn parse_rejects_big_modifier() {
    let e = diced::parse_die("1d6+40000").unwrap_err();
    assert_eq!(e.kind(), ErrKind::NumericOverflow);
}

#[test]
fn parse_rejects_zero_size() {
    let e = diced::parse_die("1d0").unwrap_err();
    assert_eq!(e.kind(), ErrKind::InvalidDieSize);
}

#[test]
fn parse_empty_input() {
    let args = args_with(vec![]);
    let e = diced::parse(&args).unwrap_err();
    assert_eq!(e.kind(), ErrKind::EmptyInput);
    assert_eq!(e.message(), "no dice supplied");
}

#[test]
fn validate_keeps_order() {
    let dice = vec!["1d4".to_string(), "2d8+3".to_string()];
    let v = diced::validate(&dice).unwrap();
    assert_eq!(v.len(), 2);
    assert_eq!(v[0].quantity(), 1);
    assert_eq!(v[0].size(), 4);
    assert_eq!(v[1].quantity(), 2);
    assert_eq!(v[1].size(), 8);
    assert_eq!(v[1].modifier(), 3);
}

#[test]
fn validate_blames_first_failure() {
    let dice = vec!["1d4".to_string(), "bogus".to_string(), "2d8".to_string()];
    let e = diced::validate(&dice).unwrap_err();
    assert_eq!(e.kind(), ErrKind::MalformedExpression);
    assert_eq!(e.message(), "invalid die expression: bogus");
}

#[test]
fn die_new_rejects_zero_size() {
    let e = Die::new(1, 0, 0).unwrap_err();
    assert_eq!(e.kind(), ErrKind::InvalidDieSize);
    assert_eq!(e.message(), "invalid die size: 0");
}

#[test]
fn die_new_keeps_fields() {
    let d = Die::new(2, 6, -1).unwrap();
    assert_eq!(d.quantity(), 2);
    assert_eq!(d.size(), 6);
    assert_eq!(d.modifier(), -1);
}

#[test]
fn error_clone_keeps_message() {
    let e: DiceError = diced::parse_die("zzz").unwrap_err();
    let c = e.clone();
    assert_eq!(c.message(), e.message());
}
