use rust_lib::bridge::{call_text, fixed_sequence, report_lines, value_text};
use rust_lib::decimal::{push_decimal, to_decimal};

#[test]
fn it_works() {
    assert_eq!(2 + 2, 4);
}

#[test]
fn fixed_sequence_holds_four_values() {
    let v = fixed_sequence();
    assert_eq!(v, vec![0, 2, 4, 6]);
    assert_eq!(v[1], 2);
}

#[test]
fn second_line_is_two() {
    assert_eq!(value_text(), "2");
    assert_eq!(report_lines(7)[1], "2");
}

#[test]
fn zero_is_bracketed() {
    let lines = report_lines(0);
    assert_eq!(lines.len(), 2);
    assert!(lines[0].contains("[0]"));
    assert_eq!(lines[0], "test xx from rust [0]");
}

#[test]
fn forty_two_is_bracketed() {
    let lines = report_lines(42);
    assert!(lines[0].contains("[42]"));
    assert_eq!(lines, vec!["test xx from rust [42]".to_string(), "2".to_string()]);
}

#[test]
fn largest_input() {
    assert_eq!(call_text(u32::MAX), "test xx from rust [4294967295]");
}

#[test]
fn input_appears_once() {
    for a in [0u32, 5, 10, 99, 100, 123456, u32::MAX] {
        let line = call_text(a);
        let digits: String = line.chars().filter(|c| c.is_ascii_digit()).collect();
        assert_eq!(digits, a.to_string());
        assert_eq!(line.matches(&format!("[{}]", a)).count(), 1);
    }
}

#[test]
fn repeated_calls_agree() {
    assert_eq!(report_lines(42), report_lines(42));
    assert_eq!(report_lines(0), report_lines(0));
}

#[test]
fn different_inputs_stay_apart() {
    let a = report_lines(1);
    let b = report_lines(10);
    assert_ne!(a[0], b[0]);
    assert!(a[0].contains("[1]"));
    assert!(b[0].contains("[10]"));
    assert!(!a[0].contains("[10]"));
}

#[test]
fn decimal_of_small_and_large_values() {
    assert_eq!(to_decimal(0), "0");
    assert_eq!(to_decimal(9), "9");
    assert_eq!(to_decimal(10), "10");
    assert_eq!(to_decimal(1000), "1000");
    assert_eq!(to_decimal(u32::MAX), "4294967295");
}

#[test]
fn push_decimal_appends() {
    let mut s = String::from("n=");
    push_decimal(&mut s, 305);
    assert_eq!(s, "n=305");
}
