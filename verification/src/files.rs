use vstd::prelude::*;
use vstd::string::StringExecFns;
use crate::decimal::{
    decimal_nat, is_digit, lemma_decimal_nat, lemma_decimal_nat_injective, parse_u64,
    parsed_u64, push_char, push_decimal,
};

verus! {

/// A ledger file of the store: the master file (year and month 0) or the file
/// of one month, with its text.
pub struct FileObject {
    pub year: u64,
    pub month: u64,
    pub contents: String,
}

/// The directory that holds the ledger files.
pub open spec fn data_dir() -> Seq<char> {
    "/home/blueweabo/.config/bluedger"@
}

/// The master ledger file, which the balance commands read.
pub open spec fn master_file() -> Seq<char> {
    data_dir() + "/master.dat"@
}

/// Where the file of a year and month is kept: the master file for year and
/// month 0, else `<dir>/<year>/<month>.dat`.
pub open spec fn file_path_spec(year: nat, month: nat) -> Seq<char> {
    if year == 0 && month == 0 {
        master_file()
    } else {
        data_dir() + seq!['/'] + decimal_nat(year) + seq!['/'] + decimal_nat(month) + ".dat"@
    }
}

/// The path of the master ledger file.
pub fn master_file_path() -> (r: String)
    ensures
        r@ == master_file(),
{
    let mut s = "/home/blueweabo/.config/bluedger".to_owned();
    s.append("/master.dat");
    s
}

/// The path of the file of a year and month (see `file_path_spec`).
pub fn file_path(year: u64, month: u64) -> (r: String)
    ensures
        r@ == file_path_spec(year as nat, month as nat),
{
    if year == 0 && month == 0 {
        master_file_path()
    } else {
        let mut s = "/home/blueweabo/.config/bluedger".to_owned();
        push_char(&mut s, '/');
        push_decimal(&mut s, year);
        push_char(&mut s, '/');
        push_decimal(&mut s, month);
        s.append(".dat");
        s
    }
}

/// The request for the file of the year and month typed in two text fields:
/// `None` where either field is not a `u64` as `str::parse` reads it.
pub fn file_request(year_text: &str, month_text: &str, contents: String) -> (r: Option<FileObject>)
    ensures
        r is Some <==> (parsed_u64(year_text@) is Some && parsed_u64(month_text@) is Some),
        r matches Some(f) ==> f.year == parsed_u64(year_text@).unwrap()
            && f.month == parsed_u64(month_text@).unwrap() && f.contents@ == contents@,
{
    match parse_u64(year_text) {
        Some(year) => match parse_u64(month_text) {
            Some(month) => Some(FileObject { year, month, contents }),
            None => None,
        },
        None => None,
    }
}

proof fn lemma_split_at_slash(a: Seq<char>, b: Seq<char>, c: Seq<char>, d: Seq<char>)
    requires
        forall|i: int| 0 <= i < a.len() ==> a[i] != '/',
        forall|i: int| 0 <= i < c.len() ==> c[i] != '/',
        a + seq!['/'] + b == c + seq!['/'] + d,
    ensures
        a == c,
        b == d,
{
    let x = a + seq!['/'] + b;
    let y = c + seq!['/'] + d;
    if a.len() < c.len() {
        assert(x[a.len() as int] == '/');
        assert(y[a.len() as int] == c[a.len() as int]);
    }
    if c.len() < a.len() {
        assert(y[c.len() as int] == '/');
        assert(x[c.len() as int] == a[c.len() as int]);
    }
    assert(a =~= x.take(a.len() as int));
    assert(c =~= y.take(c.len() as int));
    assert(b =~= x.skip(a.len() as int + 1));
    assert(d =~= y.skip(c.len() as int + 1));
}

proof fn lemma_no_slash(n: nat)
    ensures
        decimal_nat(n).len() > 0,
        is_digit(decimal_nat(n)[0]),
        forall|i: int| 0 <= i < decimal_nat(n).len() ==> decimal_nat(n)[i] != '/',
{
    lemma_decimal_nat(n);
    assert forall|i: int| 0 <= i < decimal_nat(n).len() implies decimal_nat(n)[i] != '/' by {
        assert(is_digit(decimal_nat(n)[i]));
    }
}

/// Different years and months are kept in different files: the same path
/// always stands for the same year and month, so a file read back is the one
/// written for that year and month.
pub proof fn file_path_injective(year1: nat, month1: nat, year2: nat, month2: nat)
    requires
        file_path_spec(year1, month1) == file_path_spec(year2, month2),
    ensures
        year1 == year2,
        month1 == month2,
{
    reveal_strlit("/master.dat");
    reveal_strlit(".dat");
    let n: int = data_dir().len() as int;
    let p1 = file_path_spec(year1, month1);
    let p2 = file_path_spec(year2, month2);
    let m1 = year1 == 0 && month1 == 0;
    let m2 = year2 == 0 && month2 == 0;
    lemma_no_slash(year1);
    lemma_no_slash(year2);
    lemma_no_slash(month1);
    lemma_no_slash(month2);
    if m1 && !m2 {
        assert(p1[n + 1] == 'm');
        assert(p2[n + 1] == decimal_nat(year2)[0]);
    } else if !m1 && m2 {
        assert(p2[n + 1] == 'm');
        assert(p1[n + 1] == decimal_nat(year1)[0]);
    } else if !m1 && !m2 {
        let t1 = decimal_nat(month1) + ".dat"@;
        let t2 = decimal_nat(month2) + ".dat"@;
        assert(p1.skip(n + 1) =~= decimal_nat(year1) + seq!['/'] + t1);
        assert(p2.skip(n + 1) =~= decimal_nat(year2) + seq!['/'] + t2);
        lemma_split_at_slash(decimal_nat(year1), t1, decimal_nat(year2), t2);
        assert(decimal_nat(month1) =~= t1.take(t1.len() - 4));
        assert(decimal_nat(month2) =~= t2.take(t2.len() - 4));
        lemma_decimal_nat_injective(year1, year2);
        lemma_decimal_nat_injective(month1, month2);
    }
}


/// A month's file lies in the directory named by its year and is named by its
/// month: `<dir>/<year>/<month>.dat`; the master file is `<dir>/master.dat`.
pub proof fn file_path_layout(year: nat, month: nat)
    ensures
        !(year == 0 && month == 0) ==> file_path_spec(year, month)
            == data_dir() + seq!['/'] + decimal_nat(year) + seq!['/'] + decimal_nat(month)
                + seq!['.', 'd', 'a', 't'],
        file_path_spec(0, 0) == data_dir() + seq!['/', 'm', 'a', 's', 't', 'e', 'r', '.', 'd', 'a', 't'],
{
    reveal_strlit(".dat");
    reveal_strlit("/master.dat");
    assert(".dat"@ =~= seq!['.', 'd', 'a', 't']);
    assert("/master.dat"@ =~= seq!['/', 'm', 'a', 's', 't', 'e', 'r', '.', 'd', 'a', 't']);
}

} // verus!
