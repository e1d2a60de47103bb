use cover::colorize::{colorize_line, paint_tier};
use cover::tier::{tier_of_parts, Tier};

const GOOD: &str = "\u{1b}[1;32m";
const WARN: &str = "\u{1b}[1;33m";
const CRIT: &str = "\u{1b}[1;31m";
const RESET: &str = "\u{1b}[0m";

#[test]
fn paint_wraps_text_in_colour_codes() {
    assert_eq!(paint_tier(Tier::Good, "x"), format!("{GOOD}x{RESET}"));
    assert_eq!(paint_tier(Tier::Warning, "x"), format!("{WARN}x{RESET}"));
    assert_eq!(paint_tier(Tier::Critical, "x"), format!("{CRIT}x{RESET}"));
}

#[test]
fn high_value_is_good() {
    assert_eq!(colorize_line("95.0%"), format!("{GOOD}95.0%{RESET}"));
    assert_eq!(colorize_line("100%"), format!("{GOOD}100%{RESET}"));
    assert_eq!(colorize_line("90.1%"), format!("{GOOD}90.1%{RESET}"));
}

#[test]
fn boundary_ninety_is_not_good() {
    assert_eq!(colorize_line("90.0%"), format!("{WARN}90.0%{RESET}"));
    assert_eq!(colorize_line("90%"), format!("{WARN}90%{RESET}"));
}

#[test]
fn middle_value_is_warning() {
    assert_eq!(colorize_line("76%"), format!("{WARN}76%{RESET}"));
    assert_eq!(colorize_line("75.5%"), format!("{WARN}75.5%{RESET}"));
}

#[test]
fn boundary_seventy_five_is_critical() {
    assert_eq!(colorize_line("75.0%"), format!("{CRIT}75.0%{RESET}"));
    assert_eq!(colorize_line("75%"), format!("{CRIT}75%{RESET}"));
}

#[test]
fn zero_is_critical() {
    assert_eq!(colorize_line("0%"), format!("{CRIT}0%{RESET}"));
    assert_eq!(colorize_line("000%"), format!("{CRIT}000%{RESET}"));
}

#[test]
fn unparseable_match_passes_through() {
    assert_eq!(colorize_line("12:.5%"), "12:.5%");
}

#[test]
fn line_text_around_percentages_is_kept() {
    assert_eq!(
        colorize_line("lines: 83.3% (10/12)"),
        format!("lines: {WARN}83.3%{RESET} (10/12)")
    );
}

#[test]
fn several_percentages_each_get_their_tier() {
    assert_eq!(
        colorize_line("a 95% b 50% c"),
        format!("a {GOOD}95%{RESET} b {CRIT}50%{RESET} c")
    );
}

#[test]
fn line_without_percentages_is_unchanged() {
    assert_eq!(colorize_line("| file | coverage |"), "| file | coverage |");
    assert_eq!(colorize_line(""), "");
    assert_eq!(colorize_line("12.%"), "12.%");
    assert_eq!(colorize_line("no digits %"), "no digits %");
}

#[test]
fn tier_of_parts_reads_digit_ranges() {
    let s = "95.0";
    assert_eq!(tier_of_parts(s, 0, 2, 3, 4), Tier::Good);
    let t = "75.5";
    assert_eq!(tier_of_parts(t, 0, 2, 3, 4), Tier::Warning);
    assert_eq!(tier_of_parts(t, 0, 2, 3, 3), Tier::Critical);
}
