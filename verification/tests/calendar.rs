use bluedger::calendar::{
    axis_label, days_in_month, month_end, month_name, month_start, plot_month, previous_month,
    push_signed,
};
use chrono::{Datelike, NaiveDate};

#[test]
fn month_lengths_agree_with_chrono() {
    for year in -400..=2400 {
        for month in 1..=12u32 {
            let d = NaiveDate::from_ymd_opt(year, month, 1).unwrap();
            assert_eq!(days_in_month(year, month), d.num_days_in_month() as u32, "{year}-{month}");
        }
    }
}

#[test]
fn february_lengths() {
    assert_eq!(days_in_month(2024, 2), 29);
    assert_eq!(days_in_month(2023, 2), 28);
    assert_eq!(days_in_month(1900, 2), 28);
    assert_eq!(days_in_month(2000, 2), 29);
    assert_eq!(days_in_month(2025, 4), 30);
    assert_eq!(days_in_month(2025, 12), 31);
}

#[test]
fn previous_months() {
    assert_eq!(previous_month(2025, 1), (2024, 12));
    assert_eq!(previous_month(2025, 3), (2025, 2));
    assert_eq!(previous_month(2025, 12), (2025, 11));
}

#[test]
fn plot_months_run_over_a_year() {
    assert_eq!(plot_month(2025, 3, 0), (2024, 3));
    assert_eq!(plot_month(2025, 3, 9), (2024, 12));
    assert_eq!(plot_month(2025, 3, 10), (2025, 1));
    assert_eq!(plot_month(2025, 3, 12), (2025, 3));
    assert_eq!(plot_month(2025, 12, 0), (2024, 12));
    assert_eq!(plot_month(2025, 12, 1), (2025, 1));
    assert_eq!(plot_month(2025, 1, 11), (2024, 12));
    for month in 1..=12u32 {
        for k in 0..12u32 {
            let (y0, m0) = plot_month(2025, month, k);
            let (y1, m1) = plot_month(2025, month, k + 1);
            assert_eq!(y1 * 12 + m1 as i32, y0 * 12 + m0 as i32 + 1);
        }
    }
}

#[test]
fn dates_are_written_as_ledger_takes_them() {
    assert_eq!(month_start(2025, 3), "2025/3/01");
    assert_eq!(month_end(2025, 3, 2025), "2025/3/31");
    assert_eq!(month_end(2024, 2, 2024), "2024/2/29");
    assert_eq!(month_end(2024, 2, 2025), "2024/2/28");
    assert_eq!(month_start(-5, 11), "-5/11/01");
}

#[test]
fn signed_numbers() {
    let mut s = String::new();
    push_signed(&mut s, -2147483648);
    assert_eq!(s, "-2147483648");
    let mut s = String::new();
    push_signed(&mut s, 0);
    assert_eq!(s, "0");
}

#[test]
fn month_names() {
    assert_eq!(month_name(1), "Jan");
    assert_eq!(month_name(5), "May");
    assert_eq!(month_name(12), "Dec");
    assert_eq!(month_name(0), "Error");
    assert_eq!(month_name(13), "Error");
}

#[test]
fn axis_labels() {
    assert_eq!(axis_label(3, Some(12), 2025), "Mar 2025");
    assert_eq!(axis_label(3, Some(0), 2025), "Mar 2025");
    assert_eq!(axis_label(3, Some(9), 2025), "Dec 2025");
    assert_eq!(axis_label(3, Some(10), 2025), "Jan 2025");
    assert_eq!(axis_label(3, Some(13), 2025), "Apr 2025");
    assert_eq!(axis_label(3, Some(30), 2025), "Error 2025");
    assert_eq!(axis_label(3, Some(-3), 2025), "Error 2025");
    assert_eq!(axis_label(3, None, 2025), "Error 2025");
    assert_eq!(axis_label(1, Some(i64::MAX), 2025), "Error 2025");
    assert_eq!(axis_label(12, Some(i64::MIN), 2025), "Error 2025");
}

#[test]
fn axis_names_the_plotted_month() {
    for month in 1..=12u32 {
        for k in 0..=12u32 {
            let (_, m) = plot_month(2025, month, k);
            let label = axis_label(month, Some(k as i64), 2025);
            assert_eq!(label, format!("{} 2025", month_name(m as i128)));
        }
    }
}
