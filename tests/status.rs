use status_line::battery::{battery_percent, charge_percent, parse_charge, pick_battery};
use status_line::clock::tick_delay_micros;
use status_line::flash::FlashOverride;
use status_line::status::{merge_flash, LineBuilder};
use status_line::text::{decimal_text, parse_i32, starts_with, trim};

#[test]
fn composed_line_follows_registration_order() {
    let mut line = LineBuilder::new()
        .segment("\u{1f50b}")
        .segment("\u{1f4f6}")
        .segment("\u{1f552}")
        .build();
    assert_eq!(line.len(), 3);
    assert_eq!(line.update(2, Some("09:00:00".to_string())), "\u{1f552} 09:00:00");
    assert_eq!(
        line.update(0, Some("50%".to_string())),
        "\u{1f50b} 50%   \u{1f552} 09:00:00"
    );
    assert_eq!(line.update(1, None), "\u{1f50b} 50%   \u{1f552} 09:00:00");
    assert_eq!(
        line.update(1, Some("home".to_string())),
        "\u{1f50b} 50%   \u{1f4f6} home   \u{1f552} 09:00:00"
    );
    assert_eq!(line.update(0, None), "\u{1f4f6} home   \u{1f552} 09:00:00");
}

#[test]
fn empty_line() {
    let mut line = LineBuilder::new().segment("A").build();
    assert_eq!(line.update(0, None), "");
}

#[test]
fn merge_flash_prefers_override() {
    assert_eq!(merge_flash(Some(Some("hi".to_string())), Some("line".to_string())), "hi");
    assert_eq!(merge_flash(Some(None), Some("line".to_string())), "line");
    assert_eq!(merge_flash(None, Some("line".to_string())), "line");
    assert_eq!(merge_flash(None, None), "");
}

#[test]
fn percent_of_charge() {
    assert_eq!(battery_percent(Some("50".to_string()), Some("200".to_string())), Some("25%".to_string()));
    assert_eq!(
        battery_percent(Some("3000000\n".to_string()), Some("4000000\n".to_string())),
        Some("75%".to_string())
    );
}

#[test]
fn percent_absent_on_bad_input() {
    assert_eq!(battery_percent(Some("abc".to_string()), Some("200".to_string())), None);
    assert_eq!(battery_percent(Some("50".to_string()), Some("full".to_string())), None);
    assert_eq!(battery_percent(None, Some("200".to_string())), None);
    assert_eq!(battery_percent(Some("50".to_string()), Some("0".to_string())), None);
    assert_eq!(charge_percent(Some(-5), Some(100)), None);
    assert_eq!(charge_percent(Some(2147483647), Some(2147483647)), Some("100%".to_string()));
}

#[test]
fn charge_readings() {
    assert_eq!(parse_charge(Some(" 42\n".to_string())), Some(42));
    assert_eq!(parse_charge(Some("4 2".to_string())), None);
    assert_eq!(parse_charge(None), None);
    assert_eq!(parse_i32("-17"), Some(-17));
    assert_eq!(parse_i32("+8"), Some(8));
    assert_eq!(parse_i32("2147483648"), None);
    assert_eq!(trim("  a b \n"), "a b");
    assert_eq!(decimal_text(0), "0");
    assert_eq!(decimal_text(1234567890), "1234567890");
    assert!(starts_with("BAT0", "BAT"));
    assert!(!starts_with("BA", "BAT"));
}

#[test]
fn first_battery_entry() {
    let names = vec!["AC".to_string(), "BAT1".to_string(), "BAT0".to_string()];
    assert_eq!(pick_battery(&names), Some(1));
    assert_eq!(pick_battery(&vec!["AC".to_string(), "ucsi".to_string()]), None);
    assert_eq!(pick_battery(&vec![]), None);
}

#[test]
fn flash_window_restarts() {
    let mut f = FlashOverride::new();
    let t1 = f.on_line();
    let t2 = f.on_line();
    assert_ne!(t1, t2);
    assert!(!f.on_timer(t1));
    assert!(f.on_timer(t2));
    assert!(!f.on_timer(t2));
}

#[test]
fn clock_delay() {
    assert_eq!(tick_delay_micros(0), 1_000_001);
    assert_eq!(tick_delay_micros(999_999), 2);
    assert_eq!(tick_delay_micros(250_000), 750_001);
    assert_eq!(tick_delay_micros(1_500_000), 500_001);
}
