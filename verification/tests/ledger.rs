use bluedger::ledger::{
    assets_args, balance_args, converted_balance_args, current_month_range, last_month_range,
    plot_account, yearly_queries, PlotKind,
};

const MASTER: &str = "/home/blueweabo/.config/bluedger/master.dat";

#[test]
fn balance_arguments() {
    assert_eq!(
        balance_args("2025/3/01", "2025/3/31", "Expenses"),
        vec!["-f", MASTER, "bal", "Expenses", "-n", "-F", "%(strip(display_total))", "--begin", "2025/3/01", "--end", "2025/3/31"]
    );
}

#[test]
fn converted_arguments() {
    assert_eq!(
        converted_balance_args("2000/01/01", "2025/3/31", "Assets"),
        vec!["-f", MASTER, "bal", "Assets", "-n", "-X", "EUR", "-F", "%(quantity(display_total))", "--begin", "2000/01/01", "--end", "2025/3/31"]
    );
}

#[test]
fn asset_arguments() {
    assert_eq!(assets_args(), vec!["-f", MASTER, "bal", "Assets", "-n", "-F", "%(strip(display_total))"]);
}

#[test]
fn current_month() {
    let r = current_month_range(2024, 2);
    assert_eq!((r.begin.as_str(), r.end.as_str()), ("2024/2/01", "2024/2/29"));
}

#[test]
fn last_month() {
    let r = last_month_range(2025, 1);
    assert_eq!((r.begin.as_str(), r.end.as_str()), ("2024/12/01", "2024/12/31"));
    let r = last_month_range(2025, 3);
    assert_eq!((r.begin.as_str(), r.end.as_str()), ("2025/2/01", "2025/2/28"));
    let r = last_month_range(2024, 3);
    assert_eq!((r.begin.as_str(), r.end.as_str()), ("2024/2/01", "2024/2/29"));
}

#[test]
fn expense_plot_points() {
    let q = yearly_queries(PlotKind::Expenses, 2025, 3);
    assert_eq!(q.len(), 13);
    assert_eq!((q[0].offset, q[0].begin.as_str(), q[0].end.as_str()), (0, "2024/3/01", "2024/3/31"));
    assert_eq!((q[9].begin.as_str(), q[9].end.as_str()), ("2024/12/01", "2024/12/31"));
    assert_eq!((q[11].begin.as_str(), q[11].end.as_str()), ("2025/2/01", "2025/2/28"));
    assert_eq!((q[12].offset, q[12].begin.as_str(), q[12].end.as_str()), (12, "2025/3/01", "2025/3/31"));
    assert!(q.iter().all(|p| p.account == "Expenses" && !p.negate));
}

#[test]
fn month_length_counted_in_current_year() {
    // January 2025: the point for February 2024 ends on the 28th, as the
    // month's length is taken in the current year.
    let q = yearly_queries(PlotKind::Income, 2025, 1);
    assert_eq!((q[1].begin.as_str(), q[1].end.as_str()), ("2024/2/01", "2024/2/28"));
    assert!(q.iter().all(|p| p.account == "Income" && p.negate));
}

#[test]
fn cumulative_plots() {
    for (kind, name, negate) in [
        (PlotKind::Assets, "Assets", false),
        (PlotKind::Liabilities, "Liabilities", true),
        (PlotKind::Equity, "Equity", false),
    ] {
        let q = yearly_queries(kind, 2025, 7);
        assert_eq!(plot_account(kind), name);
        for (k, p) in q.iter().enumerate() {
            assert_eq!(p.offset as usize, k);
            assert_eq!(p.begin, "2000/01/01");
            assert_eq!(p.account, name);
            assert_eq!(p.negate, negate);
        }
        assert_eq!(q[12].end, "2025/7/31");
        assert_eq!(q[5].end, "2024/12/31");
    }
}
