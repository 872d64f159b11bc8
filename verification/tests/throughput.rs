use chrono::{Datelike, NaiveDate};
use keel::throughput::{calculate_throughput, generate_months, generate_week_starts, start_of_week_monday};

fn day(y: i32, m: u32, d: u32) -> i32 {
    NaiveDate::from_ymd_opt(y, m, d).unwrap().num_days_from_ce()
}

#[test]
fn generate_week_starts_returns_correct_mondays() {
    let today = day(2026, 1, 29); // Thursday
    let weeks = generate_week_starts(today, 3);

    assert_eq!(weeks.len(), 3);
    // Most recent Monday first
    assert_eq!(weeks[0], day(2026, 1, 26) as i64);
    assert_eq!(weeks[1], day(2026, 1, 19) as i64);
    assert_eq!(weeks[2], day(2026, 1, 12) as i64);
}

#[test]
fn generate_months_returns_correct_months() {
    let today = NaiveDate::from_ymd_opt(2026, 1, 29).unwrap();
    let months = generate_months(today.year(), today.month(), 3);

    assert_eq!(months.len(), 3);
    assert_eq!(months[0], (2026, 1));
    assert_eq!(months[1], (2025, 12));
    assert_eq!(months[2], (2025, 11));
}

#[test]
fn start_of_week_is_the_monday_on_or_before() {
    assert_eq!(start_of_week_monday(day(2026, 1, 26)), day(2026, 1, 26) as i64);
    assert_eq!(start_of_week_monday(day(2026, 2, 1)), day(2026, 1, 26) as i64);
    assert_eq!(start_of_week_monday(day(2024, 3, 1)), day(2024, 2, 26) as i64);
    assert_eq!(start_of_week_monday(1), 1);
    assert_eq!(start_of_week_monday(0), -6);
}

fn today_parts() -> (i32, i32, u32) {
    let today = NaiveDate::from_ymd_opt(2026, 3, 12).unwrap();
    (today.num_days_from_ce(), today.year(), today.month())
}

#[test]
fn calculate_throughput_counts_stories_per_week() {
    let (today, year, month) = today_parts();
    let this_week = start_of_week_monday(today) as i32;
    let last_week = this_week - 7;
    // 2 stories completed this week, 1 last week
    let completed = vec![this_week + 1, this_week + 2, last_week + 1];

    let throughput = calculate_throughput(&completed, &vec![], today, year, month, 4);

    assert_eq!(throughput.stories_per_week.len(), 4);
    assert_eq!(throughput.stories_per_week[0].count, 2); // This week
    assert_eq!(throughput.stories_per_week[1].count, 1); // Last week
}

fn average(counts: &keel::throughput::ThroughputCounts) -> f64 {
    let total: usize = counts.stories_per_week.iter().map(|w| w.count).sum();
    if counts.story_weeks > 0 { total as f64 / counts.story_weeks as f64 } else { 0.0 }
}

#[test]
fn calculate_throughput_uses_growing_denominator_for_partial_history() {
    let (today, year, month) = today_parts();
    let this_week = start_of_week_monday(today) as i32;
    // 4 stories this week
    let completed: Vec<i32> = (0..4).map(|i| this_week + i).collect();

    let throughput = calculate_throughput(&completed, &vec![], today, year, month, 4);

    // With only one observed week of completions, use denominator = 1
    assert_eq!(throughput.story_weeks, 1);
    assert!((average(&throughput) - 4.0).abs() < 0.01);
}

#[test]
fn calculate_throughput_caps_denominator_at_window_size() {
    let (today, year, month) = today_parts();
    let this_week = start_of_week_monday(today) as i32;
    // One story in each week of the 4-week window, and an older completion
    // that must not expand the denominator beyond the window
    let completed = vec![this_week + 1, this_week - 6, this_week - 13, this_week - 20, this_week - 35];

    let throughput = calculate_throughput(&completed, &vec![], today, year, month, 4);
    assert_eq!(throughput.story_weeks, 4);
    assert!((average(&throughput) - 1.0).abs() < 0.01);
}

#[test]
fn calculate_throughput_counts_bearings_per_month() {
    let (today, year, month) = today_parts();
    let laid = vec![(year, month), (year, month)];

    let throughput = calculate_throughput(&vec![], &laid, today, year, month, 4);

    assert_eq!(throughput.bearings_per_month.len(), 6);
    assert_eq!(throughput.bearings_per_month[0].count, 2);
    assert_eq!(throughput.bearings_per_month[0].year, 2026);
    assert_eq!(throughput.bearings_per_month[0].month, 3);
    assert_eq!(throughput.bearings_per_month[3].month, 12);
    assert_eq!(throughput.bearings_per_month[3].year, 2025);
}

#[test]
fn no_completions_average_over_the_whole_window() {
    let (today, year, month) = today_parts();
    let throughput = calculate_throughput(&vec![], &vec![], today, year, month, 5);
    assert_eq!(throughput.story_weeks, 5);
    assert!(throughput.stories_per_week.iter().all(|w| w.count == 0));
    let zero = calculate_throughput(&vec![], &vec![], today, year, month, 0);
    assert_eq!(zero.story_weeks, 0);
    assert!(zero.stories_per_week.is_empty());
}
