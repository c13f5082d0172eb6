use vstd::prelude::*;
use crate::calendar::{
    date_text, is_month, month_lengths_of_the_calendar, month_end, month_length, month_start, plot_month, plot_month_spec,
    previous_month, previous_month_spec,
};
use crate::decimal::{decimal_int, decimal_nat, digit_char};
use crate::files::{master_file, master_file_path};

verus! {

/// The texts of a list of strings.
pub open spec fn texts(v: Seq<String>) -> Seq<Seq<char>> {
    v.map_values(|s: String| s@)
}

/// The arguments of a ledger balance of `account` between two dates, each
/// amount printed with its currency.
pub open spec fn balance_args_spec(begin: Seq<char>, end: Seq<char>, account: Seq<char>) -> Seq<Seq<char>> {
    seq![
        "-f"@, master_file(), "bal"@, account, "-n"@, "-F"@, "%(strip(display_total))"@,
        "--begin"@, begin, "--end"@, end,
    ]
}

/// The arguments of a ledger balance of `account` between two dates, converted
/// to euros and printed as a bare quantity.
pub open spec fn converted_balance_args_spec(begin: Seq<char>, end: Seq<char>, account: Seq<char>) -> Seq<Seq<char>> {
    seq![
        "-f"@, master_file(), "bal"@, account, "-n"@, "-X"@, "EUR"@, "-F"@,
        "%(quantity(display_total))"@, "--begin"@, begin, "--end"@, end,
    ]
}

/// The arguments of the ledger balance of all assets, each amount printed with
/// its currency.
pub open spec fn assets_args_spec() -> Seq<Seq<char>> {
    seq!["-f"@, master_file(), "bal"@, "Assets"@, "-n"@, "-F"@, "%(strip(display_total))"@]
}

/// The arguments for `ledger` that ask for the balance of `account` between
/// `begin` and `end` (see `balance_args_spec`).
pub fn balance_args(begin: &str, end: &str, account: &str) -> (r: Vec<String>)
    ensures
        texts(r@) == balance_args_spec(begin@, end@, account@),
{
    let mut r: Vec<String> = Vec::new();
    r.push("-f".to_owned());
    r.push(master_file_path());
    r.push("bal".to_owned());
    r.push(account.to_owned());
    r.push("-n".to_owned());
    r.push("-F".to_owned());
    r.push("%(strip(display_total))".to_owned());
    r.push("--begin".to_owned());
    r.push(begin.to_owned());
    r.push("--end".to_owned());
    r.push(end.to_owned());
    assert(texts(r@) =~= balance_args_spec(begin@, end@, account@));
    r
}

/// The arguments for `ledger` that ask for the balance of `account` between
/// `begin` and `end` in euros (see `converted_balance_args_spec`).
pub fn converted_balance_args(begin: &str, end: &str, account: &str) -> (r: Vec<String>)
    ensures
        texts(r@) == converted_balance_args_spec(begin@, end@, account@),
{
    let mut r: Vec<String> = Vec::new();
    r.push("-f".to_owned());
    r.push(master_file_path());
    r.push("bal".to_owned());
    r.push(account.to_owned());
    r.push("-n".to_owned());
    r.push("-X".to_owned());
    r.push("EUR".to_owned());
    r.push("-F".to_owned());
    r.push("%(quantity(display_total))".to_owned());
    r.push("--begin".to_owned());
    r.push(begin.to_owned());
    r.push("--end".to_owned());
    r.push(end.to_owned());
    assert(texts(r@) =~= converted_balance_args_spec(begin@, end@, account@));
    r
}

/// The arguments for `ledger` that ask for the balance of all assets.
pub fn assets_args() -> (r: Vec<String>)
    ensures
        texts(r@) == assets_args_spec(),
{
    let mut r: Vec<String> = Vec::new();
    r.push("-f".to_owned());
    r.push(master_file_path());
    r.push("bal".to_owned());
    r.push("Assets".to_owned());
    r.push("-n".to_owned());
    r.push("-F".to_owned());
    r.push("%(strip(display_total))".to_owned());
    assert(texts(r@) =~= assets_args_spec());
    r
}

/// The first and the last day of a period, as the ledger command takes them.
pub struct DateRange {
    pub begin: String,
    pub end: String,
}

/// The range of a whole month: from its first to its last day.
pub open spec fn month_range_spec(year: int, month: int) -> (Seq<char>, Seq<char>) {
    (
        date_text(year, month, seq!['0', '1']),
        date_text(year, month, decimal_nat(month_length(year, month) as nat)),
    )
}

/// The current month, from its first to its last day.
pub fn current_month_range(year: i32, month: u32) -> (r: DateRange)
    requires
        is_month(month as int),
    ensures
        (r.begin@, r.end@) == month_range_spec(year as int, month as int),
{
    DateRange { begin: month_start(year, month), end: month_end(year, month, year) }
}

/// The month before the current one, from its first to its last day.
pub fn last_month_range(year: i32, month: u32) -> (r: DateRange)
    requires
        is_month(month as int),
        year > i32::MIN,
    ensures
        (r.begin@, r.end@) == month_range_spec(
            previous_month_spec(year as int, month as int).0,
            previous_month_spec(year as int, month as int).1,
        ),
{
    let (y, m) = previous_month(year, month);
    DateRange { begin: month_start(y, m), end: month_end(y, m, y) }
}

/// The five yearly plots of the dashboard.
#[derive(Clone, Copy, Debug, PartialEq, Eq, Structural)]
pub enum PlotKind {
    Expenses,
    Income,
    Assets,
    Liabilities,
    Equity,
}

/// The ledger account that a plot follows.
pub open spec fn plot_account_spec(kind: PlotKind) -> Seq<char> {
    match kind {
        PlotKind::Expenses => "Expenses"@,
        PlotKind::Income => "Income"@,
        PlotKind::Assets => "Assets"@,
        PlotKind::Liabilities => "Liabilities"@,
        PlotKind::Equity => "Equity"@,
    }
}

/// Whether a plot shows the balance with its sign turned, so that income and
/// liabilities show as positive amounts.
pub open spec fn plot_negated(kind: PlotKind) -> bool {
    kind == PlotKind::Income || kind == PlotKind::Liabilities
}

/// Whether a plot shows the balance since the start of the books rather than
/// the balance of each month.
pub open spec fn plot_cumulative(kind: PlotKind) -> bool {
    kind == PlotKind::Assets || kind == PlotKind::Liabilities || kind == PlotKind::Equity
}

/// The ledger account that a plot follows.
pub fn plot_account(kind: PlotKind) -> (r: &'static str)
    ensures
        r@ == plot_account_spec(kind),
{
    match kind {
        PlotKind::Expenses => "Expenses",
        PlotKind::Income => "Income",
        PlotKind::Assets => "Assets",
        PlotKind::Liabilities => "Liabilities",
        PlotKind::Equity => "Equity",
    }
}

/// One point of a yearly plot: the balance of `account` between two dates,
/// shown at `offset` on the month axis, with its sign turned where `negate`.
pub struct BalanceQuery {
    pub offset: u32,
    pub begin: String,
    pub end: String,
    pub account: String,
    pub negate: bool,
}

/// The start of the books, where the cumulative plots begin.
pub open spec fn books_start() -> Seq<char> {
    "2000/01/01"@
}

/// What point `offset` of a yearly plot asks for, for the current `year` and
/// `month`. The month's last day is counted in the current year.
pub open spec fn query_matches(q: BalanceQuery, kind: PlotKind, year: int, month: int, offset: int) -> bool {
    let (y, m) = plot_month_spec(year, month, offset);
    &&& q.offset == offset
    &&& q.begin@ == if plot_cumulative(kind) { books_start() } else { date_text(y, m, seq!['0', '1']) }
    &&& q.end@ == date_text(y, m, decimal_nat(month_length(year, m) as nat))
    &&& q.account@ == plot_account_spec(kind)
    &&& q.negate == plot_negated(kind)
}

/// The thirteen points of a yearly plot, from the current month a year ago to
/// the current month.
pub fn yearly_queries(kind: PlotKind, year: i32, month: u32) -> (r: Vec<BalanceQuery>)
    requires
        is_month(month as int),
        year > i32::MIN,
    ensures
        r@.len() == 13,
        forall|k: int| 0 <= k < 13 ==> query_matches(#[trigger] r@[k], kind, year as int, month as int, k),
{
    let mut r: Vec<BalanceQuery> = Vec::new();
    let mut offset: u32 = 0;
    while offset < 13
        invariant
            is_month(month as int),
            year > i32::MIN,
            offset <= 13,
            r@.len() == offset,
            forall|k: int| 0 <= k < offset ==> query_matches(#[trigger] r@[k], kind, year as int, month as int, k),
        decreases 13 - offset,
    {
        let (y, m) = plot_month(year, month, offset);
        let begin = if matches!(kind, PlotKind::Assets | PlotKind::Liabilities | PlotKind::Equity) {
            "2000/01/01".to_owned()
        } else {
            month_start(y, m)
        };
        let end = month_end(y, m, year);
        let negate = matches!(kind, PlotKind::Income | PlotKind::Liabilities);
        let q = BalanceQuery { offset, begin, end, account: plot_account(kind).to_owned(), negate };
        assert(query_matches(q, kind, year as int, month as int, offset as int));
        r.push(q);
        offset = offset + 1;
    }
    r
}


proof fn lemma_day_digits()
    ensures
        decimal_nat(28) == seq!['2', '8'],
        decimal_nat(29) == seq!['2', '9'],
        decimal_nat(30) == seq!['3', '0'],
        decimal_nat(31) == seq!['3', '1'],
{
    assert(decimal_nat(2) == seq![digit_char(2)]);
    assert(decimal_nat(3) == seq![digit_char(3)]);
    assert(decimal_nat(28) =~= seq!['2', '8']);
    assert(decimal_nat(29) =~= seq!['2', '9']);
    assert(decimal_nat(30) =~= seq!['3', '0']);
    assert(decimal_nat(31) =~= seq!['3', '1']);
}

/// A month's range runs from its first day to its last real day:
/// `year/month/01` to `year/month/30` for April, June, September and
/// November, `.../31` for the other 31-day months, and `.../29` or `.../28`
/// for February by the leap-year rule.
pub proof fn month_range_whole_month(year: int, month: int)
    requires
        is_month(month),
    ensures
        month_range_spec(year, month).0
            == decimal_int(year) + seq!['/'] + decimal_int(month) + seq!['/', '0', '1'],
        (month == 4 || month == 6 || month == 9 || month == 11) ==> month_range_spec(year, month).1
            == decimal_int(year) + seq!['/'] + decimal_int(month) + seq!['/', '3', '0'],
        (month == 1 || month == 3 || month == 5 || month == 7 || month == 8 || month == 10
            || month == 12) ==> month_range_spec(year, month).1
            == decimal_int(year) + seq!['/'] + decimal_int(month) + seq!['/', '3', '1'],
        month == 2 && ((year % 4 == 0 && year % 100 != 0) || year % 400 == 0)
            ==> month_range_spec(year, month).1
            == decimal_int(year) + seq!['/'] + decimal_int(month) + seq!['/', '2', '9'],
        month == 2 && !((year % 4 == 0 && year % 100 != 0) || year % 400 == 0)
            ==> month_range_spec(year, month).1
            == decimal_int(year) + seq!['/'] + decimal_int(month) + seq!['/', '2', '8'],
{
    lemma_day_digits();
    month_lengths_of_the_calendar(year, month);
    let pre = decimal_int(year) + seq!['/'] + decimal_int(month) + seq!['/'];
    assert(month_range_spec(year, month).0 =~= pre + seq!['0', '1']);
    assert(pre + seq!['0', '1'] =~= decimal_int(year) + seq!['/'] + decimal_int(month) + seq!['/', '0', '1']);
    assert(pre + seq!['3', '0'] =~= decimal_int(year) + seq!['/'] + decimal_int(month) + seq!['/', '3', '0']);
    assert(pre + seq!['3', '1'] =~= decimal_int(year) + seq!['/'] + decimal_int(month) + seq!['/', '3', '1']);
    assert(pre + seq!['2', '9'] =~= decimal_int(year) + seq!['/'] + decimal_int(month) + seq!['/', '2', '9']);
    assert(pre + seq!['2', '8'] =~= decimal_int(year) + seq!['/'] + decimal_int(month) + seq!['/', '2', '8']);
}

/// The last month's range is the whole month before the current one: December
/// 1 to 31 of the year before in January, else the range of month - 1.
pub proof fn last_month_is_previous_month(year: int, month: int)
    requires
        is_month(month),
    ensures
        month == 1 ==> month_range_spec(
            previous_month_spec(year, month).0,
            previous_month_spec(year, month).1,
        ) == (
            decimal_int(year - 1) + seq!['/', '1', '2', '/', '0', '1'],
            decimal_int(year - 1) + seq!['/', '1', '2', '/', '3', '1'],
        ),
        month > 1 ==> month_range_spec(
            previous_month_spec(year, month).0,
            previous_month_spec(year, month).1,
        ) == month_range_spec(year, month - 1),
{
    if month == 1 {
        month_range_whole_month(year - 1, 12);
        assert(decimal_nat(12) == decimal_nat(1).push(digit_char(2)));
        assert(decimal_int(12) =~= seq!['1', '2']);
        assert(decimal_int(year - 1) + seq!['/'] + decimal_int(12) + seq!['/', '0', '1']
            =~= decimal_int(year - 1) + seq!['/', '1', '2', '/', '0', '1']);
        assert(decimal_int(year - 1) + seq!['/'] + decimal_int(12) + seq!['/', '3', '1']
            =~= decimal_int(year - 1) + seq!['/', '1', '2', '/', '3', '1']);
    }
}

/// Every point of a yearly plot covers one whole month: the month `offset`
/// steps along from the current month a year ago, up to its last real day
/// (the month's length taken in the current year). The monthly plots start on
/// its first day, the running plots on 2000/01/01; the account is the plot's
/// own, and only income and liabilities turn the sign.
pub proof fn plot_query_covers_month(q: BalanceQuery, kind: PlotKind, year: int, month: int, offset: int)
    requires
        is_month(month),
        0 <= offset <= 12,
        query_matches(q, kind, year, month, offset),
    ensures
        ({
            let y = if month + offset <= 12 { year - 1 } else { year };
            let m = if month + offset <= 12 { month + offset } else { month + offset - 12 };
            let pre = decimal_int(y) + seq!['/'] + decimal_int(m) + seq!['/'];
            &&& q.offset == offset
            &&& (m == 4 || m == 6 || m == 9 || m == 11) ==> q.end@ == pre + seq!['3', '0']
            &&& (m == 1 || m == 3 || m == 5 || m == 7 || m == 8 || m == 10 || m == 12)
                ==> q.end@ == pre + seq!['3', '1']
            &&& m == 2 && ((year % 4 == 0 && year % 100 != 0) || year % 400 == 0)
                ==> q.end@ == pre + seq!['2', '9']
            &&& m == 2 && !((year % 4 == 0 && year % 100 != 0) || year % 400 == 0)
                ==> q.end@ == pre + seq!['2', '8']
            &&& (kind == PlotKind::Expenses || kind == PlotKind::Income) ==> q.begin@ == pre + seq!['0', '1']
            &&& !(kind == PlotKind::Expenses || kind == PlotKind::Income)
                ==> q.begin@ == seq!['2', '0', '0', '0', '/', '0', '1', '/', '0', '1']
            &&& q.negate == (kind == PlotKind::Income || kind == PlotKind::Liabilities)
        }),
        kind == PlotKind::Expenses ==> q.account@ == seq!['E', 'x', 'p', 'e', 'n', 's', 'e', 's'],
        kind == PlotKind::Income ==> q.account@ == seq!['I', 'n', 'c', 'o', 'm', 'e'],
        kind == PlotKind::Assets ==> q.account@ == seq!['A', 's', 's', 'e', 't', 's'],
        kind == PlotKind::Liabilities ==> q.account@
            == seq!['L', 'i', 'a', 'b', 'i', 'l', 'i', 't', 'i', 'e', 's'],
        kind == PlotKind::Equity ==> q.account@ == seq!['E', 'q', 'u', 'i', 't', 'y'],
{
    reveal_strlit("2000/01/01");
    reveal_strlit("Expenses");
    reveal_strlit("Income");
    reveal_strlit("Assets");
    reveal_strlit("Liabilities");
    reveal_strlit("Equity");
    let y = if month + offset <= 12 { year - 1 } else { year };
    let m = if month + offset <= 12 { month + offset } else { month + offset - 12 };
    assert(plot_month_spec(year, month, offset) == (y, m));
    lemma_day_digits();
    month_lengths_of_the_calendar(year, m);
    let pre = decimal_int(y) + seq!['/'] + decimal_int(m) + seq!['/'];
    assert(date_text(y, m, seq!['0', '1']) =~= pre + seq!['0', '1']);
    assert(date_text(y, m, decimal_nat(month_length(year, m) as nat)) =~= pre + decimal_nat(month_length(year, m) as nat));
    assert(books_start() =~= seq!['2', '0', '0', '0', '/', '0', '1', '/', '0', '1']);
    assert(plot_account_spec(kind) == q.account@);
    if kind == PlotKind::Expenses {
        assert(q.account@ =~= seq!['E', 'x', 'p', 'e', 'n', 's', 'e', 's']);
    } else if kind == PlotKind::Income {
        assert(q.account@ =~= seq!['I', 'n', 'c', 'o', 'm', 'e']);
    } else if kind == PlotKind::Assets {
        assert(q.account@ =~= seq!['A', 's', 's', 'e', 't', 's']);
    } else if kind == PlotKind::Liabilities {
        assert(q.account@ =~= seq!['L', 'i', 'a', 'b', 'i', 'l', 'i', 't', 'i', 'e', 's']);
    } else {
        assert(q.account@ =~= seq!['E', 'q', 'u', 'i', 't', 'y']);
    }
}

/// The five yearly plots ask for the same months: the same point of any two
/// plots ends on the same day, and the monthly plots also start on the same day.
pub proof fn plots_share_their_months(
    q1: BalanceQuery, kind1: PlotKind, q2: BalanceQuery, kind2: PlotKind,
    year: int, month: int, offset: int,
)
    requires
        is_month(month),
        0 <= offset <= 12,
        query_matches(q1, kind1, year, month, offset),
        query_matches(q2, kind2, year, month, offset),
    ensures
        q1.offset == q2.offset,
        q1.end@ == q2.end@,
        (kind1 == PlotKind::Expenses || kind1 == PlotKind::Income)
            && (kind2 == PlotKind::Expenses || kind2 == PlotKind::Income) ==> q1.begin@ == q2.begin@,
{
}

/// A converted balance asks the same of every account: for any two accounts
/// the argument lists have the same length and differ only in the account
/// itself, which stands fourth.
pub proof fn converted_args_differ_only_in_account(begin: Seq<char>, end: Seq<char>, a1: Seq<char>, a2: Seq<char>)
    ensures
        converted_balance_args_spec(begin, end, a1).len() == converted_balance_args_spec(begin, end, a2).len(),
        converted_balance_args_spec(begin, end, a1)[3] == a1,
        forall|i: int| 0 <= i < converted_balance_args_spec(begin, end, a1).len() && i != 3 ==>
            converted_balance_args_spec(begin, end, a1)[i] == converted_balance_args_spec(begin, end, a2)[i],
{
}

/// A balance asks the same of every account: for any two accounts the
/// argument lists have the same length and differ only in the account itself,
/// which stands fourth.
pub proof fn balance_args_differ_only_in_account(begin: Seq<char>, end: Seq<char>, a1: Seq<char>, a2: Seq<char>)
    ensures
        balance_args_spec(begin, end, a1).len() == balance_args_spec(begin, end, a2).len(),
        balance_args_spec(begin, end, a1)[3] == a1,
        forall|i: int| 0 <= i < balance_args_spec(begin, end, a1).len() && i != 3 ==>
            balance_args_spec(begin, end, a1)[i] == balance_args_spec(begin, end, a2)[i],
{
}


/// The three kinds of run ask the same file the same way: a converted balance
/// is a plain balance with `-X EUR` added and the amounts printed as bare
/// quantities, and the asset balance is a plain balance of `Assets` without
/// dates.
pub proof fn balance_kinds_agree(begin: Seq<char>, end: Seq<char>, account: Seq<char>)
    ensures
        converted_balance_args_spec(begin, end, account).len()
            == balance_args_spec(begin, end, account).len() + 2,
        converted_balance_args_spec(begin, end, account).take(5)
            == balance_args_spec(begin, end, account).take(5),
        converted_balance_args_spec(begin, end, account).skip(9)
            == balance_args_spec(begin, end, account).skip(7),
        converted_balance_args_spec(begin, end, account)[5] == seq!['-', 'X'],
        converted_balance_args_spec(begin, end, account)[6] == seq!['E', 'U', 'R'],
        converted_balance_args_spec(begin, end, account)[7] == balance_args_spec(begin, end, account)[5],
        assets_args_spec() == balance_args_spec(begin, end, seq!['A', 's', 's', 'e', 't', 's']).take(7),
        balance_args_spec(begin, end, account).skip(7) == seq![seq!['-', '-', 'b', 'e', 'g', 'i', 'n'], begin,
            seq!['-', '-', 'e', 'n', 'd'], end],
{
    reveal_strlit("-X");
    reveal_strlit("EUR");
    reveal_strlit("Assets");
    reveal_strlit("--begin");
    reveal_strlit("--end");
    assert(converted_balance_args_spec(begin, end, account).take(5)
        =~= balance_args_spec(begin, end, account).take(5));
    assert(converted_balance_args_spec(begin, end, account).skip(9)
        =~= balance_args_spec(begin, end, account).skip(7));
    assert("Assets"@ =~= seq!['A', 's', 's', 'e', 't', 's']);
    assert(assets_args_spec() =~= balance_args_spec(begin, end, seq!['A', 's', 's', 'e', 't', 's']).take(7));
    assert("-X"@ =~= seq!['-', 'X']);
    assert("EUR"@ =~= seq!['E', 'U', 'R']);
    assert("--begin"@ =~= seq!['-', '-', 'b', 'e', 'g', 'i', 'n']);
    assert("--end"@ =~= seq!['-', '-', 'e', 'n', 'd']);
    assert(balance_args_spec(begin, end, account).skip(7) =~= seq![seq!['-', '-', 'b', 'e', 'g', 'i', 'n'], begin,
            seq!['-', '-', 'e', 'n', 'd'], end]);
}

} // verus!
