use vstd::prelude::*;

verus! {

/// The character of a decimal digit `d` (`0 <= d < 10`).
pub open spec fn digit_char(d: nat) -> char {
    if d == 0 { '0' }
    else if d == 1 { '1' }
    else if d == 2 { '2' }
    else if d == 3 { '3' }
    else if d == 4 { '4' }
    else if d == 5 { '5' }
    else if d == 6 { '6' }
    else if d == 7 { '7' }
    else if d == 8 { '8' }
    else { '9' }
}

/// The decimal notation of a natural number, without leading zeros
/// (as Rust's `Display` writes it).
pub open spec fn decimal_nat(n: nat) -> Seq<char>
    decreases n,
{
    if n < 10 {
        seq![digit_char(n)]
    } else {
        decimal_nat(n / 10).push(digit_char(n % 10))
    }
}

/// The decimal notation of an integer: a `-` in front of negative numbers.
pub open spec fn decimal_int(i: int) -> Seq<char> {
    if i < 0 {
        seq!['-'] + decimal_nat((-i) as nat)
    } else {
        decimal_nat(i as nat)
    }
}

fn digit(d: u64) -> (c: char)
    requires
        d < 10,
    ensures
        c == digit_char(d as nat),
{
    if d == 0 { '0' }
    else if d == 1 { '1' }
    else if d == 2 { '2' }
    else if d == 3 { '3' }
    else if d == 4 { '4' }
    else if d == 5 { '5' }
    else if d == 6 { '6' }
    else if d == 7 { '7' }
    else if d == 8 { '8' }
    else { '9' }
}

/// Appends one character to a string.
/// Wraps `String::push`, which appends the character at the end of the string.
#[verifier::external_body]
pub(crate) fn push_char(s: &mut String, c: char)
    ensures
        final(s)@ == old(s)@.push(c),
{
    s.push(c);
}

/// Appends the decimal notation of `n` to `s`.
pub fn push_decimal(s: &mut String, n: u64)
    ensures
        final(s)@ == old(s)@ + decimal_nat(n as nat),
    decreases n,
{
    if n >= 10 {
        push_decimal(s, n / 10);
    }
    push_char(s, digit(n % 10));
    proof {
        if n >= 10 {
            assert(decimal_nat(n as nat) == decimal_nat((n / 10) as nat).push(digit_char((n % 10) as nat)));
        }
    }
}


/// Whether `c` is one of the ASCII digits `0` to `9`.
pub open spec fn is_digit(c: char) -> bool {
    '0' <= c && c <= '9'
}

/// The value of an ASCII digit.
pub open spec fn digit_value(c: char) -> nat {
    (c as int - '0' as int) as nat
}

/// Whether every character of `s` is an ASCII digit.
pub open spec fn all_digits(s: Seq<char>) -> bool {
    forall|i: int| 0 <= i < s.len() ==> #[trigger] is_digit(s[i])
}

/// The number that a string of decimal digits denotes (leading zeros allowed).
pub open spec fn digits_value(s: Seq<char>) -> nat
    decreases s.len(),
{
    if s.len() == 0 {
        0
    } else {
        digits_value(s.drop_last()) * 10 + digit_value(s.last())
    }
}

/// The digits of an unsigned number in text: one leading `+` is dropped.
pub open spec fn unsigned_digits(s: Seq<char>) -> Seq<char> {
    if s.len() > 0 && s[0] == '+' {
        s.drop_first()
    } else {
        s
    }
}

/// What `str::parse::<u64>` gives back: a number when the text is an optional
/// `+` followed by at least one ASCII digit and nothing else, and the value fits.
pub open spec fn parsed_u64(s: Seq<char>) -> Option<u64> {
    let d = unsigned_digits(s);
    if d.len() > 0 && all_digits(d) && digits_value(d) <= u64::MAX {
        Some(digits_value(d) as u64)
    } else {
        None
    }
}

proof fn lemma_unsigned_digits_push(p: Seq<char>, c: char)
    ensures
        p.len() > 0 ==> unsigned_digits(p.push(c)) == unsigned_digits(p).push(c),
        p.len() == 0 && c == '+' ==> unsigned_digits(p.push(c)) == Seq::<char>::empty(),
        p.len() == 0 && c != '+' ==> unsigned_digits(p.push(c)) == seq![c],
{
    if p.len() > 0 {
        assert(p.push(c)[0] == p[0]);
        if p[0] == '+' {
            assert(p.push(c).drop_first() =~= p.drop_first().push(c));
        }
    } else {
        assert(p.push(c) =~= seq![c]);
        assert(seq![c].drop_first() =~= Seq::<char>::empty());
    }
}

proof fn lemma_digits_value_push(d: Seq<char>, c: char)
    ensures
        digits_value(d.push(c)) == digits_value(d) * 10 + digit_value(c),
        all_digits(d.push(c)) == (all_digits(d) && is_digit(c)),
{
    assert(d.push(c).drop_last() =~= d);
    if all_digits(d.push(c)) {
        assert forall|i: int| 0 <= i < d.len() implies #[trigger] is_digit(d[i]) by {
            assert(d.push(c)[i] == d[i]);
        }
        assert(is_digit(d.push(c)[d.len() as int]));
    }
    if all_digits(d) && is_digit(c) {
        assert forall|i: int| 0 <= i < d.push(c).len() implies #[trigger] is_digit(d.push(c)[i]) by {
            if i < d.len() {
                assert(d.push(c)[i] == d[i]);
            }
        }
    }
}

/// Parses an unsigned decimal number as `str::parse::<u64>` does.
pub fn parse_u64(s: &str) -> (r: Option<u64>)
    ensures
        r == parsed_u64(s@),
{
    broadcast use vstd::string::axiom_spec_iter;
    let mut value: u64 = 0;
    let mut nonempty: bool = false;
    let mut ok: bool = true;
    let mut first: bool = true;
    for c in it: s.chars()
        invariant
            it.seq() == s@,
            first == (it.index() == 0),
            nonempty == (unsigned_digits(s@.take(it.index())).len() > 0),
            ok ==> all_digits(unsigned_digits(s@.take(it.index())))
                && digits_value(unsigned_digits(s@.take(it.index()))) == value,
            !ok ==> !all_digits(unsigned_digits(s@.take(it.index())))
                || digits_value(unsigned_digits(s@.take(it.index()))) > u64::MAX,
            it.index() <= s@.len(),
    {
        let ghost i = it.index();
        let ghost p = s@.take(i);
        assert(s@.take(i + 1) =~= p.push(c));
        proof {
            lemma_unsigned_digits_push(p, c);
        }
        if first && c == '+' {
            assert(unsigned_digits(s@.take(i + 1)) =~= Seq::<char>::empty());
        } else {
            let ghost d = unsigned_digits(p);
            assert(unsigned_digits(s@.take(i + 1)) =~= d.push(c)) by {
                if p.len() == 0 {
                    assert(d =~= Seq::<char>::empty());
                    assert(d.push(c) =~= seq![c]);
                }
            }
            proof {
                lemma_digits_value_push(d, c);
            }
            if ok {
                if '0' <= c && c <= '9' {
                    let dv = (c as u32 - '0' as u32) as u64;
                    if value <= (u64::MAX - dv) / 10 {
                        value = value * 10 + dv;
                    } else {
                        ok = false;
                    }
                } else {
                    ok = false;
                }
            }
            nonempty = true;
        }
        first = false;
    }
    assert(s@.take(s@.len() as int) =~= s@);
    if ok && nonempty {
        Some(value)
    } else {
        None
    }
}


proof fn lemma_digit_char(d: nat)
    requires
        d < 10,
    ensures
        is_digit(digit_char(d)),
        digit_value(digit_char(d)) == d,
{
    if d == 0 {} else if d == 1 {} else if d == 2 {} else if d == 3 {} else if d == 4 {}
    else if d == 5 {} else if d == 6 {} else if d == 7 {} else if d == 8 {} else {}
}

/// The decimal notation of a number is a non-empty string of digits that
/// denotes the number.
pub proof fn lemma_decimal_nat(n: nat)
    ensures
        decimal_nat(n).len() > 0,
        all_digits(decimal_nat(n)),
        digits_value(decimal_nat(n)) == n,
    decreases n,
{
    if n >= 10 {
        lemma_decimal_nat(n / 10);
        lemma_digits_value_push(decimal_nat(n / 10), digit_char(n % 10));
        lemma_digit_char(n % 10);
        assert((n / 10) * 10 + n % 10 == n);
    } else {
        lemma_digit_char(n);
        assert(digits_value(Seq::<char>::empty()) == 0);
        lemma_digits_value_push(Seq::<char>::empty(), digit_char(n));
        assert(Seq::<char>::empty().push(digit_char(n)) =~= seq![digit_char(n)]);
        assert(seq![digit_char(n)].drop_last() =~= Seq::<char>::empty());
        assert(is_digit(seq![digit_char(n)][0]));
    }
}

/// Two numbers with the same decimal notation are equal.
pub proof fn lemma_decimal_nat_injective(a: nat, b: nat)
    requires
        decimal_nat(a) == decimal_nat(b),
    ensures
        a == b,
{
    lemma_decimal_nat(a);
    lemma_decimal_nat(b);
}

/// Reading back what `push_decimal` wrote gives the number: `parse_u64` takes
/// the decimal notation of every `u64` to that number.
pub proof fn decimal_parse_roundtrip(n: u64)
    ensures
        parsed_u64(decimal_nat(n as nat)) == Some(n),
{
    lemma_decimal_nat(n as nat);
    assert(decimal_nat(n as nat)[0] != '+') by {
        assert(is_digit(decimal_nat(n as nat)[0]));
    }
}


/// The decimal notation has no leading zero: only 0 itself starts with `0`.
pub proof fn decimal_has_no_leading_zero(n: nat)
    ensures
        decimal_nat(n)[0] == '0' <==> n == 0,
        n == 0 ==> decimal_nat(n) == seq!['0'],
    decreases n,
{
    if n >= 10 {
        decimal_has_no_leading_zero(n / 10);
        lemma_decimal_nat(n / 10);
        assert(decimal_nat(n)[0] == decimal_nat(n / 10)[0]);
    } else {
        lemma_digit_char(n);
    }
}

/// Which texts `parse_u64` reads: a non-empty run of ASCII digits whose value
/// fits, with or without one leading `+`, is read as its value; an empty text,
/// a text with any other character after its start, or one that starts with
/// something other than a digit or `+`, is refused.
pub proof fn parse_u64_reads_digit_strings(t: Seq<char>)
    ensures
        t.len() > 0 && all_digits(t) && digits_value(t) <= u64::MAX ==> parsed_u64(t)
            == Some(digits_value(t) as u64) && parsed_u64(seq!['+'] + t) == Some(digits_value(t) as u64),
        t.len() > 0 && all_digits(t) && digits_value(t) > u64::MAX ==> parsed_u64(t) is None
            && parsed_u64(seq!['+'] + t) is None,
        t.len() == 0 ==> parsed_u64(t) is None && parsed_u64(seq!['+'] + t) is None,
        (exists|i: int| 0 < i < t.len() && !is_digit(#[trigger] t[i])) ==> parsed_u64(t) is None,
        t.len() > 0 && t[0] != '+' && !is_digit(t[0]) ==> parsed_u64(t) is None,
{
    if t.len() > 0 && all_digits(t) {
        assert(is_digit(t[0]));
    }
    assert((seq!['+'] + t).drop_first() =~= t);
    if exists|i: int| 0 < i < t.len() && !is_digit(#[trigger] t[i]) {
        let i = choose|i: int| 0 < i < t.len() && !is_digit(#[trigger] t[i]);
        if t[0] == '+' {
            assert(t.drop_first()[i - 1] == t[i]);
        }
    }
}

} // verus!
