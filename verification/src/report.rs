use vstd::prelude::*;
use crate::decimal::push_char;

verus! {

/// Unicode's `White_Space` characters, which `char::is_whitespace` accepts.
pub open spec fn is_whitespace(c: char) -> bool {
    ||| '\u{9}' <= c <= '\u{d}'
    ||| c == ' '
    ||| c == '\u{85}'
    ||| c == '\u{a0}'
    ||| c == '\u{1680}'
    ||| '\u{2000}' <= c <= '\u{200a}'
    ||| c == '\u{2028}'
    ||| c == '\u{2029}'
    ||| c == '\u{202f}'
    ||| c == '\u{205f}'
    ||| c == '\u{3000}'
}

/// Whether `c` is a whitespace character, as `char::is_whitespace` says.
pub fn is_whitespace_char(c: char) -> (r: bool)
    ensures
        r == is_whitespace(c),
{
    ('\u{9}' <= c && c <= '\u{d}') || c == ' ' || c == '\u{85}' || c == '\u{a0}'
        || c == '\u{1680}' || ('\u{2000}' <= c && c <= '\u{200a}') || c == '\u{2028}'
        || c == '\u{2029}' || c == '\u{202f}' || c == '\u{205f}' || c == '\u{3000}'
}

/// The pieces of `s` between `\n` characters, as `str::split('\n')` gives them:
/// always one more piece than there are newlines.
pub open spec fn split_lines(s: Seq<char>) -> Seq<Seq<char>>
    decreases s.len(),
{
    if s.len() == 0 {
        seq![Seq::<char>::empty()]
    } else {
        let r = split_lines(s.drop_last());
        if s.last() == '\n' {
            r.push(Seq::<char>::empty())
        } else {
            r.update(r.len() - 1, r.last().push(s.last()))
        }
    }
}

/// The maximal runs of non-whitespace characters of `s`, in order, as
/// `str::split_whitespace` gives them.
pub open spec fn words(s: Seq<char>) -> Seq<Seq<char>>
    decreases s.len(),
{
    if s.len() == 0 {
        Seq::<Seq<char>>::empty()
    } else {
        let w = words(s.drop_last());
        let c = s.last();
        if is_whitespace(c) {
            w
        } else if s.len() > 1 && !is_whitespace(s[s.len() - 2]) {
            w.update(w.len() - 1, w.last().push(c))
        } else {
            w.push(seq![c])
        }
    }
}

/// `s` with every `,` replaced by `.`.
pub open spec fn commas_to_dots(s: Seq<char>) -> Seq<char> {
    s.map_values(|c: char| if c == ',' { '.' } else { c })
}

/// The amount of a balance line: its first word, or `0 XXX` where it has none,
/// with decimal commas turned into points.
pub open spec fn line_amount(line: Seq<char>) -> Seq<char> {
    let w = words(line);
    commas_to_dots(if w.len() > 0 { w[0] } else { "0 XXX"@ })
}

/// The currency of a balance line: its second word, or `0.0 XXX` where it has none.
pub open spec fn line_currency(line: Seq<char>) -> Seq<char> {
    let w = words(line);
    if w.len() > 1 { w[1] } else { "0.0 XXX"@ }
}

/// What a balance report of the ledger command holds, line by line: the amount
/// texts (still to be read as numbers), the currencies and the number of lines.
pub struct BalanceReport {
    pub amounts: Vec<String>,
    pub currencies: Vec<String>,
    pub size: u64,
}

/// `s` with every `,` replaced by `.`, as `str::replace(',', ".")` gives it.
pub fn replace_commas(s: &str) -> (r: String)
    ensures
        r@ == commas_to_dots(s@),
{
    broadcast use vstd::string::axiom_spec_iter;
    let mut r = String::new();
    for c in it: s.chars()
        invariant
            it.seq() == s@,
            it.index() <= s@.len(),
            r@ == commas_to_dots(s@.take(it.index())),
    {
        let ghost i = it.index();
        assert(s@.take(i + 1) =~= s@.take(i).push(c));
        if c == ',' {
            push_char(&mut r, '.');
        } else {
            push_char(&mut r, c);
        }
        assert(r@ =~= commas_to_dots(s@.take(i + 1)));
    }
    assert(s@.take(s@.len() as int) =~= s@);
    r
}


proof fn lemma_split_lines_push(p: Seq<char>, c: char)
    ensures
        split_lines(p).len() >= 1,
        c == '\n' ==> split_lines(p.push(c)) == split_lines(p).push(Seq::<char>::empty()),
        c != '\n' ==> split_lines(p.push(c)) == split_lines(p).update(
            split_lines(p).len() - 1,
            split_lines(p).last().push(c),
        ),
    decreases p.len(),
{
    if p.len() > 0 {
        lemma_split_lines_push(p.drop_last(), p.last());
        assert(p.drop_last().push(p.last()) =~= p);
    }
    assert(p.push(c).drop_last() =~= p);
}

proof fn lemma_words_push(l: Seq<char>, c: char)
    ensures
        l.len() > 0 && !is_whitespace(l.last()) ==> words(l).len() > 0,
        is_whitespace(c) ==> words(l.push(c)) == words(l),
        !is_whitespace(c) && l.len() > 0 && !is_whitespace(l.last()) ==> words(l.push(c))
            == words(l).update(words(l).len() - 1, words(l).last().push(c)),
        !is_whitespace(c) && !(l.len() > 0 && !is_whitespace(l.last())) ==> words(l.push(c))
            == words(l).push(seq![c]),
    decreases l.len(),
{
    if l.len() > 0 {
        lemma_words_push(l.drop_last(), l.last());
        assert(l.drop_last().push(l.last()) =~= l);
        if l.len() > 1 {
            assert(l.drop_last().last() == l[l.len() - 2]);
        }
    }
    assert(l.push(c).drop_last() =~= l);
    if l.len() > 0 {
        assert(l.push(c)[l.push(c).len() - 2] == l.last());
    }
}

/// The words seen so far of the line being read: the first two, how many there
/// are (counted up to three), and whether the last character ends a word.
struct LineWords {
    first: String,
    second: String,
    count: u8,
    in_word: bool,
}

impl LineWords {
    spec fn describes(&self, line: Seq<char>) -> bool {
        let w = words(line);
        &&& self.count as int == if w.len() < 3 { w.len() as int } else { 3 }
        &&& w.len() > 0 ==> self.first@ == w[0]
        &&& w.len() > 1 ==> self.second@ == w[1]
        &&& self.in_word == (line.len() > 0 && !is_whitespace(line.last()))
    }

    fn new() -> (r: LineWords)
        ensures
            r.describes(Seq::<char>::empty()),
    {
        LineWords { first: String::new(), second: String::new(), count: 0, in_word: false }
    }

    fn feed(&mut self, c: char, Ghost(line): Ghost<Seq<char>>)
        requires
            old(self).describes(line),
        ensures
            final(self).describes(line.push(c)),
    {
        proof {
            lemma_words_push(line, c);
        }
        let ghost w = words(line);
        if is_whitespace_char(c) {
            self.in_word = false;
            assert(line.push(c).last() == c);
        } else if self.in_word {
            let ghost w2 = words(line.push(c));
            assert(w2.len() == w.len());
            if self.count == 1 {
                push_char(&mut self.first, c);
                assert(w2[0] == w[0].push(c));
            } else if self.count == 2 {
                push_char(&mut self.second, c);
                assert(w2[1] == w[1].push(c));
                assert(w2[0] == w[0]);
            } else {
                assert(w2[0] == w[0]);
                assert(w2[1] == w[1]);
            }
            assert(line.push(c).last() == c);
        } else {
            let ghost w2 = words(line.push(c));
            if self.count == 0 {
                let mut f = String::new();
                push_char(&mut f, c);
                self.first = f;
                self.count = 1;
                assert(w2[0] =~= seq![c]);
            } else if self.count == 1 {
                let mut f = String::new();
                push_char(&mut f, c);
                self.second = f;
                self.count = 2;
                assert(w2[0] == w[0]);
                assert(w2[1] =~= seq![c]);
            } else {
                self.count = 3;
                assert(w2[0] == w[0]);
                assert(w2[1] == w[1]);
            }
            self.in_word = true;
            assert(line.push(c).last() == c);
        }
    }

    fn amount(&self, Ghost(line): Ghost<Seq<char>>) -> (r: String)
        requires
            self.describes(line),
        ensures
            r@ == line_amount(line),
    {
        if self.count > 0 {
            replace_commas(self.first.as_str())
        } else {
            replace_commas("0 XXX")
        }
    }

    fn currency(&self, Ghost(line): Ghost<Seq<char>>) -> (r: String)
        requires
            self.describes(line),
        ensures
            r@ == line_currency(line),
    {
        if self.count > 1 {
            self.second.clone()
        } else {
            "0.0 XXX".to_owned()
        }
    }
}

/// Reads the output of a ledger balance command: one row per piece of the
/// output between newlines, each with its amount and currency (see
/// `line_amount` and `line_currency`), and the number of rows.
pub fn parse_balance_report(output: &str) -> (r: BalanceReport)
    ensures
        r.size == split_lines(output@).len(),
        r.amounts@.len() == split_lines(output@).len(),
        r.currencies@.len() == split_lines(output@).len(),
        forall|k: int| 0 <= k < split_lines(output@).len() ==>
            (#[trigger] r.amounts@[k])@ == line_amount(split_lines(output@)[k]),
        forall|k: int| 0 <= k < split_lines(output@).len() ==>
            (#[trigger] r.currencies@[k])@ == line_currency(split_lines(output@)[k]),
{
    broadcast use vstd::string::axiom_spec_iter;
    let mut amounts: Vec<String> = Vec::new();
    let mut currencies: Vec<String> = Vec::new();
    let mut state = LineWords::new();
    let ghost mut line: Seq<char> = Seq::empty();
    proof {
        assert(output@.take(0) =~= Seq::<char>::empty());
    }
    for c in it: output.chars()
        invariant
            it.seq() == output@,
            it.index() <= output@.len(),
            split_lines(output@.take(it.index())).len() >= 1,
            line == split_lines(output@.take(it.index())).last(),
            state.describes(line),
            amounts@.len() == split_lines(output@.take(it.index())).len() - 1,
            currencies@.len() == split_lines(output@.take(it.index())).len() - 1,
            forall|k: int| 0 <= k < amounts@.len() ==>
                (#[trigger] amounts@[k])@ == line_amount(split_lines(output@.take(it.index()))[k]),
            forall|k: int| 0 <= k < currencies@.len() ==>
                (#[trigger] currencies@[k])@ == line_currency(split_lines(output@.take(it.index()))[k]),
    {
        let ghost i = it.index();
        let ghost p = output@.take(i);
        assert(output@.take(i + 1) =~= p.push(c));
        proof {
            lemma_split_lines_push(p, c);
            lemma_split_lines_push(p.push(c), c);
        }
        if c == '\n' {
            let a = state.amount(Ghost(line));
            let cur = state.currency(Ghost(line));
            amounts.push(a);
            currencies.push(cur);
            state = LineWords::new();
            proof {
                line = Seq::empty();
            }
        } else {
            state.feed(c, Ghost(line));
            proof {
                line = line.push(c);
            }
        }
    }
    assert(output@.take(output@.len() as int) =~= output@);
    let a = state.amount(Ghost(line));
    let cur = state.currency(Ghost(line));
    amounts.push(a);
    currencies.push(cur);
    let size = amounts.len() as u64;
    BalanceReport { amounts, currencies, size }
}


/// The number of newlines in `s`.
pub open spec fn count_newlines(s: Seq<char>) -> nat
    decreases s.len(),
{
    if s.len() == 0 {
        0
    } else {
        count_newlines(s.drop_last()) + if s.last() == '\n' { 1nat } else { 0nat }
    }
}

/// A balance report has one row per line of the output: one more than the
/// output has newlines.
pub proof fn report_rows_are_lines(s: Seq<char>)
    ensures
        split_lines(s).len() == count_newlines(s) + 1,
    decreases s.len(),
{
    if s.len() > 0 {
        report_rows_are_lines(s.drop_last());
        lemma_split_lines_push(s.drop_last(), s.last());
        assert(s.drop_last().push(s.last()) =~= s);
    }
}

/// The amount of a row never holds a comma: decimal commas become points.
pub proof fn amount_has_no_comma(line: Seq<char>)
    ensures
        forall|i: int| 0 <= i < line_amount(line).len() ==> line_amount(line)[i] != ',',
{
}


/// Whether a word of `l` begins at `p`: a non-whitespace character at the
/// start of the line or right after whitespace.
pub open spec fn word_start(l: Seq<char>, p: int) -> bool {
    0 <= p < l.len() && !is_whitespace(l[p]) && (p == 0 || is_whitespace(l[p - 1]))
}

/// How many words of `l` begin before position `p`.
pub open spec fn word_starts_before(l: Seq<char>, p: int) -> nat
    decreases p,
{
    if p <= 0 {
        0
    } else {
        word_starts_before(l, p - 1) + if word_start(l, p - 1) { 1nat } else { 0nat }
    }
}

/// Whether `w` is the word of `l` that runs from `p` up to `e`: it begins a
/// word, holds no whitespace, and ends at the end of the line or at whitespace.
pub open spec fn is_word_at(l: Seq<char>, w: Seq<char>, p: int, e: int) -> bool {
    &&& 0 <= p < e <= l.len()
    &&& word_start(l, p)
    &&& (e == l.len() || is_whitespace(l[e]))
    &&& forall|i: int| p <= i < e ==> !is_whitespace(#[trigger] l[i])
    &&& w == l.subrange(p, e)
}

proof fn lemma_starts_push(l: Seq<char>, c: char, p: int)
    requires
        0 <= p <= l.len(),
    ensures
        word_starts_before(l.push(c), p) == word_starts_before(l, p),
    decreases p,
{
    if p > 0 {
        lemma_starts_push(l, c, p - 1);
        assert(l.push(c)[p - 1] == l[p - 1]);
        if p > 1 {
            assert(l.push(c)[p - 2] == l[p - 2]);
        }
    }
}

proof fn lemma_run_to(l: Seq<char>, p: int, q: int)
    requires
        word_start(l, p),
        p < q <= l.len(),
        forall|i: int| p <= i < q ==> !is_whitespace(#[trigger] l[i]),
    ensures
        word_starts_before(l, q) == word_starts_before(l, p) + 1,
    decreases q,
{
    if q > p + 1 {
        lemma_run_to(l, p, q - 1);
        assert(!is_whitespace(l[q - 2]));
    }
}

proof fn lemma_word_at_push(l: Seq<char>, c: char, w: Seq<char>, p: int, e: int)
    requires
        is_word_at(l, w, p, e),
        e < l.len() || is_whitespace(c),
    ensures
        is_word_at(l.push(c), w, p, e),
{
    let l2 = l.push(c);
    assert(l2[p] == l[p]);
    if p > 0 {
        assert(l2[p - 1] == l[p - 1]);
    }
    assert forall|i: int| p <= i < e implies !is_whitespace(#[trigger] l2[i]) by {
        assert(l2[i] == l[i]);
    }
    assert(l2.subrange(p, e) =~= l.subrange(p, e));
}

spec fn word_located(l: Seq<char>, k: int) -> bool {
    exists|p: int, e: int| is_word_at(l, words(l)[k], p, e) && word_starts_before(l, p) == k
}

/// Where the words of a line stand: there are as many as word beginnings, and
/// the `k`-th runs from the `k`-th beginning to the next whitespace or the end.
proof fn lemma_words_located(l: Seq<char>)
    ensures
        words(l).len() == word_starts_before(l, l.len() as int),
        forall|k: int| 0 <= k < words(l).len() ==> #[trigger] word_located(l, k),
        l.len() > 0 && !is_whitespace(l.last()) ==> words(l).len() > 0 && exists|p: int|
            is_word_at(l, words(l).last(), p, l.len() as int)
                && word_starts_before(l, p) == words(l).len() - 1,
    decreases l.len(),
{
    if l.len() > 0 {
        let l0 = l.drop_last();
        let c = l.last();
        assert(l0.push(c) =~= l);
        lemma_words_located(l0);
        lemma_words_push(l0, c);
        lemma_starts_push(l0, c, l0.len() as int);
        let n = words(l0).len();
        let w = words(l);
        assert(l[l0.len() as int] == c);
        if l0.len() > 0 {
            assert(l[l0.len() - 1] == l0.last());
        }
        if is_whitespace(c) {
            assert forall|k: int| 0 <= k < words(l).len() implies #[trigger] word_located(l, k) by {
                assert(word_located(l0, k));
                let (p, e) = choose|p: int, e: int|
                    is_word_at(l0, words(l0)[k], p, e) && word_starts_before(l0, p) == k;
                lemma_word_at_push(l0, c, words(l0)[k], p, e);
                lemma_starts_push(l0, c, p);
            }
        } else if l0.len() > 0 && !is_whitespace(l0.last()) {
            let pl = choose|p: int|
                is_word_at(l0, words(l0).last(), p, l0.len() as int)
                    && word_starts_before(l0, p) == words(l0).len() - 1;
            lemma_starts_push(l0, c, pl);
            assert(is_word_at(l, w.last(), pl, l.len() as int)) by {
                assert(l[pl] == l0[pl]);
                if pl > 0 {
                    assert(l[pl - 1] == l0[pl - 1]);
                }
                assert forall|i: int| pl <= i < l.len() implies !is_whitespace(#[trigger] l[i]) by {
                    if i < l0.len() {
                        assert(l[i] == l0[i]);
                    }
                }
                assert(l.subrange(pl, l.len() as int) =~= l0.subrange(pl, l0.len() as int).push(c));
            }
            assert forall|k: int| 0 <= k < words(l).len() implies #[trigger] word_located(l, k) by {
                if k == n - 1 {
                    assert(is_word_at(l, w[k], pl, l.len() as int));
                } else {
                    assert(word_located(l0, k));
                    let (p, e) = choose|p: int, e: int|
                        is_word_at(l0, words(l0)[k], p, e) && word_starts_before(l0, p) == k;
                    if e == l0.len() {
                        lemma_run_to(l0, p, e);
                    }
                    lemma_word_at_push(l0, c, words(l0)[k], p, e);
                    lemma_starts_push(l0, c, p);
                    assert(w[k] == words(l0)[k]);
                }
            }
        } else {
            let np = l0.len() as int;
            assert(word_start(l, np));
            assert(is_word_at(l, seq![c], np, l.len() as int)) by {
                assert(l.subrange(np, l.len() as int) =~= seq![c]);
            }
            assert forall|k: int| 0 <= k < words(l).len() implies #[trigger] word_located(l, k) by {
                if k == n {
                    assert(is_word_at(l, w[k], np, l.len() as int));
                } else {
                    assert(word_located(l0, k));
                    let (p, e) = choose|p: int, e: int|
                        is_word_at(l0, words(l0)[k], p, e) && word_starts_before(l0, p) == k;
                    if e == l0.len() {
                        assert(!is_whitespace(l0[e - 1]));
                    }
                    lemma_word_at_push(l0, c, words(l0)[k], p, e);
                    lemma_starts_push(l0, c, p);
                    assert(w[k] == words(l0)[k]);
                }
            }
        }
    } else {
        assert(words(l).len() == 0);
    }
}

/// The currency of a row is the second word of its line, whole: the text from
/// the second word beginning up to the next whitespace or the end of the line;
/// a line with fewer than two words gets `0.0 XXX`.
pub proof fn currency_is_second_word(line: Seq<char>)
    ensures
        word_starts_before(line, line.len() as int) < 2
            ==> line_currency(line) == seq!['0', '.', '0', ' ', 'X', 'X', 'X'],
        word_starts_before(line, line.len() as int) >= 2 ==> exists|p: int, e: int|
            is_word_at(line, line_currency(line), p, e) && word_starts_before(line, p) == 1,
{
    reveal_strlit("0.0 XXX");
    lemma_words_located(line);
    if words(line).len() >= 2 {
        assert(word_located(line, 1));
        assert(line_currency(line) == words(line)[1]);
    } else {
        assert(line_currency(line) =~= seq!['0', '.', '0', ' ', 'X', 'X', 'X']);
    }
}

/// The amount of a row is the first word of its line, whole, with each comma
/// read as a point; a line without words gets `0 XXX`.
pub proof fn amount_is_first_word(line: Seq<char>)
    ensures
        word_starts_before(line, line.len() as int) == 0
            ==> line_amount(line) == seq!['0', ' ', 'X', 'X', 'X'],
        word_starts_before(line, line.len() as int) >= 1 ==> exists|p: int, e: int| {
            &&& is_word_at(line, line.subrange(p, e), p, e)
            &&& word_starts_before(line, p) == 0
            &&& line_amount(line).len() == e - p
            &&& forall|i: int| 0 <= i < e - p ==> #[trigger] line_amount(line)[i]
                == if line[p + i] == ',' { '.' } else { line[p + i] }
        },
{
    reveal_strlit("0 XXX");
    lemma_words_located(line);
    if words(line).len() >= 1 {
        assert(word_located(line, 0));
        let (p, e) = choose|p: int, e: int|
            is_word_at(line, words(line)[0], p, e) && word_starts_before(line, p) == 0;
        assert(is_word_at(line, line.subrange(p, e), p, e));
    } else {
        assert(line_amount(line) =~= seq!['0', ' ', 'X', 'X', 'X']);
    }
}


/// Lines put back together with a newline between each two.
pub open spec fn join_lines(ls: Seq<Seq<char>>) -> Seq<char>
    decreases ls.len(),
{
    if ls.len() == 0 {
        Seq::<char>::empty()
    } else if ls.len() == 1 {
        ls[0]
    } else {
        join_lines(ls.drop_last()) + seq!['\n'] + ls.last()
    }
}

/// The rows of a report are the lines of the output, no more, no less: no line
/// holds a newline, and putting them back together with newlines gives the
/// output back.
pub proof fn lines_rebuild_output(s: Seq<char>)
    ensures
        join_lines(split_lines(s)) == s,
        forall|k: int, i: int| 0 <= k < split_lines(s).len() && 0 <= i < split_lines(s)[k].len()
            ==> #[trigger] split_lines(s)[k][i] != '\n',
    decreases s.len(),
{
    if s.len() == 0 {
        assert(split_lines(s) =~= seq![Seq::<char>::empty()]);
        assert(s =~= Seq::<char>::empty());
    } else {
        let p = s.drop_last();
        let c = s.last();
        assert(p.push(c) =~= s);
        lines_rebuild_output(p);
        lemma_split_lines_push(p, c);
        let r = split_lines(p);
        let r2 = split_lines(s);
        if c == '\n' {
            assert(r2.drop_last() =~= r);
            assert(join_lines(r2) =~= s);
            assert forall|k: int, i: int| 0 <= k < r2.len() && 0 <= i < r2[k].len()
                implies #[trigger] r2[k][i] != '\n' by {
                if k < r.len() {
                    assert(r2[k] == r[k]);
                }
            }
        } else {
            if r.len() == 1 {
                assert(join_lines(r2) =~= s);
            } else {
                assert(r2.drop_last() =~= r.drop_last());
                assert(join_lines(r2) =~= join_lines(r.drop_last()) + seq!['\n'] + r.last().push(c));
                assert(join_lines(r2) =~= s);
            }
            assert forall|k: int, i: int| 0 <= k < r2.len() && 0 <= i < r2[k].len()
                implies #[trigger] r2[k][i] != '\n' by {
                if k < r.len() - 1 {
                    assert(r2[k] == r[k]);
                } else {
                    assert(r2[k] == r.last().push(c));
                    if i < r.last().len() {
                        assert(r2[k][i] == r[r.len() - 1][i]);
                    }
                }
            }
        }
    }
}

} // verus!
