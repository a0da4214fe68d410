use little_bat::charge::Charge;
use little_bat::power::{get_battery_info, state_text, PowerState, Probe, Reading};
use little_bat::present::{
    bar_text, charge_color, decimal_text, percent_text, render_absent, render_graphic,
    render_percentage, RenderLine, Tone,
};

fn charge(x: f32) -> Charge {
    Charge::from_bits(x.to_bits())
}

fn texts(lines: &[RenderLine]) -> Vec<(String, Tone)> {
    lines.iter().map(|l| (l.text.clone(), l.tone)).collect()
}

#[test]
fn color_thresholds() {
    assert_eq!(charge_color(charge(100.0)), Tone::Healthy);
    assert_eq!(charge_color(charge(50.001)), Tone::Healthy);
    assert_eq!(charge_color(charge(50.0)), Tone::Warning);
    assert_eq!(charge_color(charge(35.0)), Tone::Warning);
    assert_eq!(charge_color(charge(20.001)), Tone::Warning);
    assert_eq!(charge_color(charge(20.0)), Tone::Critical);
    assert_eq!(charge_color(charge(0.0)), Tone::Critical);
    assert_eq!(charge_color(charge(-1.0)), Tone::Critical);
    assert_eq!(charge_color(charge(f32::NAN)), Tone::Critical);
    assert_eq!(charge_color(charge(f32::INFINITY)), Tone::Healthy);
}

#[test]
fn color_agrees_with_the_comparisons() {
    let mut bits: u64 = 0;
    while bits <= 0xffff_ffff {
        let x = f32::from_bits(bits as u32);
        let expected = if x > 50.0 {
            Tone::Healthy
        } else if x > 20.0 {
            Tone::Warning
        } else {
            Tone::Critical
        };
        assert_eq!(charge_color(Charge::from_bits(bits as u32)), expected, "{bits:#x}");
        bits += 99_991;
    }
}

#[test]
fn state_text_names_every_state() {
    assert_eq!(state_text(PowerState::Charging), "Charging");
    assert_eq!(state_text(PowerState::Discharging), "Discharging");
    assert_eq!(state_text(PowerState::Full), "Full");
    assert_eq!(state_text(PowerState::Empty), "Empty");
    assert_eq!(state_text(PowerState::Unknown), "Unknown");
    for state in [
        PowerState::Charging,
        PowerState::Discharging,
        PowerState::Full,
        PowerState::Empty,
        PowerState::Unknown,
    ] {
        assert!(!state_text(state).is_empty());
    }
}

#[test]
fn decimal_text_writes_digits() {
    assert_eq!(decimal_text(0), "0");
    assert_eq!(decimal_text(7), "7");
    assert_eq!(decimal_text(10), "10");
    assert_eq!(decimal_text(1234567890), "1234567890");
    assert_eq!(decimal_text(u128::MAX), u128::MAX.to_string());
}

#[test]
fn percent_text_of_chosen_values() {
    assert_eq!(percent_text(charge(75.0)), "75%");
    assert_eq!(percent_text(charge(15.0)), "15%");
    assert_eq!(percent_text(charge(0.0)), "0%");
    assert_eq!(percent_text(charge(100.0)), "100%");
    assert_eq!(percent_text(charge(99.5)), "100%");
    assert_eq!(percent_text(charge(98.5)), "98%");
    assert_eq!(percent_text(charge(0.5)), "0%");
    assert_eq!(percent_text(charge(-3.2)), "-3%");
    assert_eq!(percent_text(charge(-0.0)), "-0%");
    assert_eq!(percent_text(charge(f32::NAN)), "NaN%");
    assert_eq!(percent_text(charge(f32::INFINITY)), "inf%");
    assert_eq!(percent_text(charge(f32::NEG_INFINITY)), "-inf%");
}

#[test]
fn percent_text_agrees_with_the_formatter() {
    let mut bits: u64 = 0;
    while bits <= 0xffff_ffff {
        let x = f32::from_bits(bits as u32);
        assert_eq!(percent_text(Charge::from_bits(bits as u32)), format!("{:.0}%", x), "{bits:#x}");
        bits += 131_071;
    }
    let mut q: u32 = 0;
    while q <= 440 {
        let x = q as f32 / 4.0;
        for d in 0..3u32 {
            for y in [f32::from_bits(x.to_bits() + d), f32::from_bits(x.to_bits().wrapping_sub(d))] {
                assert_eq!(percent_text(charge(y)), format!("{:.0}%", y), "{y}");
                assert_eq!(percent_text(charge(-y)), format!("{:.0}%", -y), "-{y}");
            }
        }
        q += 1;
    }
}

#[test]
fn bar_text_fills_from_the_left() {
    assert_eq!(bar_text(0), "[░░░░░░░░░░]");
    assert_eq!(bar_text(2), "[██░░░░░░░░]");
    assert_eq!(bar_text(10), "[██████████]");
    for filled in 0..=10usize {
        let bar = bar_text(filled);
        assert_eq!(bar, format!("[{}{}]", "█".repeat(filled), "░".repeat(10 - filled)));
        assert_eq!(bar.chars().count(), 12);
        assert_eq!(bar.chars().filter(|c| *c == '█').count(), filled);
        assert_eq!(bar.chars().filter(|c| *c == '░').count(), 10 - filled);
    }
}

#[test]
fn percentage_without_label_is_one_line() {
    let lines = render_percentage(charge(75.0), PowerState::Charging, false);
    assert_eq!(texts(&lines), vec![("75%".to_string(), Tone::Healthy)]);
}

#[test]
fn percentage_with_label_is_three_lines() {
    let lines = render_percentage(charge(42.4), PowerState::Full, true);
    assert_eq!(
        texts(&lines),
        vec![
            ("Battery".to_string(), Tone::Plain),
            ("42%".to_string(), Tone::Warning),
            ("Full".to_string(), Tone::Muted),
        ]
    );
}

#[test]
fn graphic_with_label_is_four_lines() {
    let lines = render_graphic(charge(15.0), PowerState::Discharging, true);
    assert_eq!(
        texts(&lines),
        vec![
            ("Battery".to_string(), Tone::Plain),
            ("[██░░░░░░░░]".to_string(), Tone::Critical),
            ("15%".to_string(), Tone::Critical),
            ("Discharging".to_string(), Tone::Muted),
        ]
    );
}

#[test]
fn graphic_without_label_is_two_lines() {
    let lines = render_graphic(charge(100.0), PowerState::Full, false);
    assert_eq!(
        texts(&lines),
        vec![
            ("[██████████]".to_string(), Tone::Healthy),
            ("100%".to_string(), Tone::Healthy),
        ]
    );
}

#[test]
fn label_adds_two_lines_in_both_modes() {
    for x in [0.0f32, 19.0, 20.0, 50.0, 77.7, 100.0] {
        for state in [PowerState::Charging, PowerState::Unknown] {
            assert_eq!(render_percentage(charge(x), state, false).len(), 1);
            assert_eq!(render_percentage(charge(x), state, true).len(), 3);
            assert_eq!(render_graphic(charge(x), state, false).len(), 2);
            assert_eq!(render_graphic(charge(x), state, true).len(), 4);
        }
    }
}

#[test]
fn absent_is_one_plain_line() {
    assert_eq!(texts(&render_absent()), vec![("No battery found".to_string(), Tone::Plain)]);
}

#[test]
fn probe_failures_count_as_no_battery() {
    let reading = Reading { charge: charge(61.0), state: PowerState::Charging };
    assert_eq!(get_battery_info(Probe::Unavailable), None);
    assert_eq!(get_battery_info(Probe::Missing), None);
    assert_eq!(get_battery_info(Probe::Unreadable), None);
    assert_eq!(get_battery_info(Probe::Found(reading)), Some(reading));
}
