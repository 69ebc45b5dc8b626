//! Text building blocks: decimal numbers, joined lists, and how often a
//! character occurs.
use vstd::prelude::*;
use vstd::string::*;

verus! {

/// The character that stands for a decimal digit.
pub open spec fn digit(d: nat) -> char
    recommends
        d < 10,
{
    (0x30 + d) as char
}

/// Decimal notation of a number, without leading zeros.
pub open spec fn decimal(n: nat) -> Seq<char>
    decreases n,
{
    if n < 10 {
        seq![digit(n)]
    } else {
        decimal(n / 10).push(digit(n % 10))
    }
}

/// The number that a string of decimal digits denotes.
pub open spec fn value(s: Seq<char>) -> int
    decreases s.len(),
{
    if s.len() == 0 {
        0
    } else {
        10 * value(s.drop_last()) + (s.last() as int - 0x30)
    }
}

/// The strings of a list, as sequences of characters.
pub open spec fn texts(list: Seq<String>) -> Seq<Seq<char>> {
    list.map_values(|s: String| s@)
}

/// The parts one after the other, with `separator` between each two.
pub open spec fn joined(parts: Seq<Seq<char>>, separator: Seq<char>) -> Seq<char>
    decreases parts.len(),
{
    if parts.len() == 0 {
        Seq::empty()
    } else if parts.len() == 1 {
        parts[0]
    } else {
        joined(parts.drop_last(), separator) + separator + parts.last()
    }
}

/// The parts one after the other, with `terminator` after each.
pub open spec fn terminated(parts: Seq<Seq<char>>, terminator: Seq<char>) -> Seq<char>
    decreases parts.len(),
{
    if parts.len() == 0 {
        Seq::empty()
    } else {
        terminated(parts.drop_last(), terminator) + parts.last() + terminator
    }
}

/// How often `c` occurs in `s`.
pub open spec fn occurrences(s: Seq<char>, c: char) -> nat
    decreases s.len(),
{
    if s.len() == 0 {
        0
    } else {
        occurrences(s.drop_last(), c) + if s.last() == c {
            1nat
        } else {
            0nat
        }
    }
}

/// Appends the decimal notation of `n`.
pub fn push_decimal(out: &mut String, n: u64)
    ensures
        final(out)@ == old(out)@ + decimal(n as nat),
    decreases n,
{
    if n >= 10 {
        push_decimal(out, n / 10);
    }
    let d: u64 = n % 10;
    let character = match d {
        0 => "0",
        1 => "1",
        2 => "2",
        3 => "3",
        4 => "4",
        5 => "5",
        6 => "6",
        7 => "7",
        8 => "8",
        _ => "9",
    };
    proof {
        reveal_strlit("0");
        reveal_strlit("1");
        reveal_strlit("2");
        reveal_strlit("3");
        reveal_strlit("4");
        reveal_strlit("5");
        reveal_strlit("6");
        reveal_strlit("7");
        reveal_strlit("8");
        reveal_strlit("9");
        assert(character@ =~= seq![digit(d as nat)]);
    }
    out.append(character);
    assert(out@ =~= old(out)@ + decimal(n as nat));
}

/// Joins the parts, with `separator` between each two.
pub fn join(parts: &Vec<String>, separator: &str) -> (out: String)
    ensures
        out@ == joined(texts(parts@), separator@),
{
    let ghost all = texts(parts@);
    let mut out = String::new();
    for i in 0..parts.len()
        invariant
            all == texts(parts@),
            out@ == joined(all.take(i as int), separator@),
    {
        proof {
            assert(all.take(i + 1).drop_last() =~= all.take(i as int));
            assert(all.take(i + 1).last() == parts@[i as int]@);
        }
        if i > 0 {
            out.append(separator);
        }
        out.append(parts[i].as_str());
        assert(out@ =~= joined(all.take(i + 1), separator@));
    }
    assert(all.take(parts@.len() as int) =~= all);
    out
}

/// Puts `terminator` after each part.
pub fn terminate(parts: &Vec<String>, terminator: &str) -> (out: String)
    ensures
        out@ == terminated(texts(parts@), terminator@),
{
    let ghost all = texts(parts@);
    let mut out = String::new();
    for i in 0..parts.len()
        invariant
            all == texts(parts@),
            out@ == terminated(all.take(i as int), terminator@),
    {
        proof {
            assert(all.take(i + 1).drop_last() =~= all.take(i as int));
            assert(all.take(i + 1).last() == parts@[i as int]@);
        }
        out.append(parts[i].as_str());
        out.append(terminator);
        assert(out@ =~= terminated(all.take(i + 1), terminator@));
    }
    assert(all.take(parts@.len() as int) =~= all);
    out
}

/// Decimal notation can be read back.
pub proof fn law_decimal_reads_back(n: nat)
    ensures
        value(decimal(n)) == n,
    decreases n,
{
    if n >= 10 {
        law_decimal_reads_back(n / 10);
        assert(decimal(n).drop_last() =~= decimal(n / 10));
    } else {
        reveal_with_fuel(value, 2);
    }
}

/// Occurrences add up over concatenation.
pub proof fn lemma_occurrences_add(a: Seq<char>, b: Seq<char>, c: char)
    ensures
        occurrences(a + b, c) == occurrences(a, c) + occurrences(b, c),
    decreases b.len(),
{
    if b.len() == 0 {
        assert(a + b =~= a);
    } else {
        assert((a + b).drop_last() =~= a + b.drop_last());
        lemma_occurrences_add(a, b.drop_last(), c);
    }
}

/// A character that stands at no place of `s` occurs nowhere in it.
pub proof fn lemma_absent(s: Seq<char>, c: char)
    requires
        forall|i: int| 0 <= i < s.len() ==> s[i] != c,
    ensures
        occurrences(s, c) == 0,
    decreases s.len(),
{
    if s.len() > 0 {
        lemma_absent(s.drop_last(), c);
    }
}

/// Decimal notation holds digits only.
pub proof fn law_decimal_is_digits(n: nat)
    ensures
        decimal(n).len() >= 1,
        forall|i: int| 0 <= i < decimal(n).len() ==> '0' <= #[trigger] decimal(n)[i] <= '9',
    decreases n,
{
    if n >= 10 {
        law_decimal_is_digits(n / 10);
    }
}

/// Occurrences in joined parts of which each holds `c` equally often.
pub proof fn lemma_occurrences_joined(
    parts: Seq<Seq<char>>,
    separator: Seq<char>,
    c: char,
    each: nat,
)
    requires
        parts.len() > 0,
        forall|i: int| 0 <= i < parts.len() ==> occurrences(#[trigger] parts[i], c) == each,
    ensures
        occurrences(joined(parts, separator), c) == parts.len() * each + (parts.len() - 1)
            * occurrences(separator, c),
    decreases parts.len(),
{
    let n = parts.len() as int;
    let s = occurrences(separator, c);
    if n > 1 {
        let rest = parts.drop_last();
        assert forall|i: int| 0 <= i < rest.len() implies occurrences(#[trigger] rest[i], c)
            == each by {
            assert(rest[i] == parts[i]);
        }
        lemma_occurrences_joined(rest, separator, c, each);
        lemma_occurrences_add(joined(rest, separator), separator, c);
        lemma_occurrences_add(joined(rest, separator) + separator, parts.last(), c);
        assert((n - 1) * each + (n - 2) * s + s + each == n * each + (n - 1) * s)
            by (nonlinear_arith);
    } else {
        assert(1 * each == each && 0 * s == 0) by (nonlinear_arith);
    }
}

/// Occurrences in terminated parts of which each holds `c` equally often.
pub proof fn lemma_occurrences_terminated(
    parts: Seq<Seq<char>>,
    terminator: Seq<char>,
    c: char,
    each: nat,
)
    requires
        forall|i: int| 0 <= i < parts.len() ==> occurrences(#[trigger] parts[i], c) == each,
    ensures
        occurrences(terminated(parts, terminator), c) == parts.len() * (each + occurrences(
            terminator,
            c,
        )),
    decreases parts.len(),
{
    let n = parts.len() as int;
    let t = occurrences(terminator, c);
    if n > 0 {
        let rest = parts.drop_last();
        assert forall|i: int| 0 <= i < rest.len() implies occurrences(#[trigger] rest[i], c)
            == each by {
            assert(rest[i] == parts[i]);
        }
        lemma_occurrences_terminated(rest, terminator, c, each);
        lemma_occurrences_add(terminated(rest, terminator), parts.last(), c);
        lemma_occurrences_add(terminated(rest, terminator) + parts.last(), terminator, c);
        assert((n - 1) * (each + t) + each + t == n * (each + t)) by (nonlinear_arith);
    } else {
        assert(0 * (each + t) == 0) by (nonlinear_arith);
    }
}

/// A character that does not occur in `s` stands at no place of it.
pub proof fn lemma_not_present(s: Seq<char>, c: char)
    requires
        occurrences(s, c) == 0,
    ensures
        forall|i: int| 0 <= i < s.len() ==> s[i] != c,
    decreases s.len(),
{
    if s.len() > 0 {
        lemma_not_present(s.drop_last(), c);
        assert forall|i: int| 0 <= i < s.len() implies s[i] != c by {
            if i < s.len() - 1 {
                assert(s.drop_last()[i] == s[i]);
            }
        }
    }
}

/// Joining one part more.
pub proof fn lemma_joined_step(parts: Seq<Seq<char>>, separator: Seq<char>, n: int)
    requires
        1 <= n < parts.len(),
    ensures
        joined(parts.take(n + 1), separator) == joined(parts.take(n), separator) + separator
            + parts[n],
{
    assert(parts.take(n + 1).drop_last() =~= parts.take(n));
}

/// Joining three parts more.
pub proof fn lemma_joined_three(
    parts: Seq<Seq<char>>,
    separator: Seq<char>,
    n: int,
    before: Seq<char>,
)
    requires
        1 <= n,
        n + 3 <= parts.len(),
        joined(parts.take(n), separator) == before,
    ensures
        joined(parts.take(n + 3), separator) == before + (separator + parts[n] + separator
            + parts[n + 1] + separator + parts[n + 2]),
{
    lemma_joined_step(parts, separator, n);
    lemma_joined_step(parts, separator, n + 1);
    lemma_joined_step(parts, separator, n + 2);
    assert(before + separator + parts[n] + separator + parts[n + 1] + separator + parts[n + 2]
        =~= before + (separator + parts[n] + separator + parts[n + 1] + separator + parts[n + 2]));
}

/// A row determines its cells: two lists of cells without the separator give the
/// same row only if they are the same.
pub proof fn law_row_determines_its_cells(a: Seq<Seq<char>>, b: Seq<Seq<char>>, c: char)
    requires
        a.len() > 0,
        b.len() > 0,
        forall|i: int| 0 <= i < a.len() ==> occurrences(#[trigger] a[i], c) == 0,
        forall|i: int| 0 <= i < b.len() ==> occurrences(#[trigger] b[i], c) == 0,
        joined(a, seq![c]) == joined(b, seq![c]),
    ensures
        a == b,
    decreases a.len(),
{
    let row = joined(a, seq![c]);
    lemma_occurrences_joined(a, seq![c], c, 0);
    lemma_occurrences_joined(b, seq![c], c, 0);
    assert(occurrences(seq![c], c) == 1) by {
        reveal_with_fuel(occurrences, 2);
        assert(seq![c].drop_last() =~= Seq::<char>::empty());
    }
    let o = occurrences(seq![c], c) as int;
    let m = a.len() as int;
    let n = b.len() as int;
    assert(m * 0 + (m - 1) * o == m - 1 && n * 0 + (n - 1) * o == n - 1) by (nonlinear_arith)
        requires
            o == 1,
    ;
    if a.len() == 1 {
        assert(a =~= b);
    } else {
        let x = a.last();
        let y = b.last();
        let a_rest = a.drop_last();
        let b_rest = b.drop_last();
        assert(a[a.len() - 1] == x && b[b.len() - 1] == y);
        lemma_not_present(x, c);
        lemma_not_present(y, c);
        assert(row =~= joined(a_rest, seq![c]) + seq![c] + x);
        assert(row =~= joined(b_rest, seq![c]) + seq![c] + y);
        // The last separator stands before the last cell.
        if x.len() < y.len() {
            assert(row[row.len() - x.len() - 1] == c);
            assert(row[row.len() - x.len() - 1] == y[y.len() - x.len() - 1]);
        } else if y.len() < x.len() {
            assert(row[row.len() - y.len() - 1] == c);
            assert(row[row.len() - y.len() - 1] == x[x.len() - y.len() - 1]);
        }
        assert(x.len() == y.len());
        assert(x =~= row.skip(row.len() - x.len()));
        assert(y =~= row.skip(row.len() - x.len()));
        assert(joined(a_rest, seq![c]) =~= row.take(row.len() - x.len() - 1));
        assert(joined(b_rest, seq![c]) =~= row.take(row.len() - x.len() - 1));
        assert forall|i: int| 0 <= i < a_rest.len() implies occurrences(#[trigger] a_rest[i], c)
            == 0 by {
            assert(a_rest[i] == a[i]);
        }
        assert forall|i: int| 0 <= i < b_rest.len() implies occurrences(#[trigger] b_rest[i], c)
            == 0 by {
            assert(b_rest[i] == b[i]);
        }
        law_row_determines_its_cells(a_rest, b_rest, c);
        assert(a =~= a_rest.push(x));
        assert(b =~= b_rest.push(y));
    }
}

/// A separator after joined parts makes them terminated parts.
pub proof fn lemma_joined_and_terminated(
    first: Seq<char>,
    rest: Seq<Seq<char>>,
    separator: Seq<char>,
)
    ensures
        joined(seq![first] + rest, separator) + separator == first + separator + terminated(
            rest,
            separator,
        ),
    decreases rest.len(),
{
    let all = seq![first] + rest;
    if rest.len() == 0 {
        assert(joined(all, separator) == first);
        assert(first + separator + terminated(rest, separator) =~= first + separator);
    } else {
        let shorter = rest.drop_last();
        lemma_joined_and_terminated(first, shorter, separator);
        assert(all.drop_last() =~= seq![first] + shorter);
        assert(all.last() == rest.last());
        assert(first + separator + (terminated(shorter, separator) + rest.last() + separator)
            =~= first + separator + terminated(shorter, separator) + rest.last() + separator);
    }
}

/// The cells of a text: the stretches between the places of `c`.
pub open spec fn split(s: Seq<char>, c: char) -> Seq<Seq<char>>
    decreases s.len(),
{
    if s.len() == 0 {
        seq![Seq::empty()]
    } else {
        let cells = split(s.drop_last(), c);
        if s.last() == c {
            cells.push(Seq::empty())
        } else {
            cells.drop_last().push(cells.last().push(s.last()))
        }
    }
}

/// A text is its cells, joined, and no cell holds the separator.
pub proof fn law_split_joins_back(s: Seq<char>, c: char)
    ensures
        split(s, c).len() >= 1,
        joined(split(s, c), seq![c]) == s,
        forall|i: int| 0 <= i < split(s, c).len() ==> occurrences(#[trigger] split(s, c)[i], c) == 0,
    decreases s.len(),
{
    let cells = split(s, c);
    if s.len() == 0 {
        assert(cells[0] =~= s);
    } else {
        let rest = s.drop_last();
        let before = split(rest, c);
        law_split_joins_back(rest, c);
        if s.last() == c {
            assert(cells.drop_last() =~= before);
            assert(joined(cells, seq![c]) =~= s);
            assert forall|i: int| 0 <= i < cells.len() implies occurrences(#[trigger] cells[i], c)
                == 0 by {
                if i < before.len() {
                    assert(cells[i] == before[i]);
                }
            }
        } else {
            let grown = before.last().push(s.last());
            assert(before[before.len() - 1] == before.last());
            assert(grown.drop_last() =~= before.last());
            assert(cells.drop_last() =~= before.drop_last());
            assert(cells.last() == grown);
            assert(s =~= rest.push(s.last()));
            if before.len() == 1 {
                assert(joined(before, seq![c]) == before[0]);
                assert(joined(cells, seq![c]) == cells[0]);
                assert(joined(cells, seq![c]) == rest.push(s.last()));
            } else {
                let first = joined(before.drop_last(), seq![c]) + seq![c];
                assert(joined(before, seq![c]) == first + before.last());
                assert(joined(cells, seq![c]) == first + grown);
                assert(first + grown =~= (first + before.last()).push(s.last()));
            }
            assert forall|i: int| 0 <= i < cells.len() implies occurrences(#[trigger] cells[i], c)
                == 0 by {
                if i < before.len() - 1 {
                    assert(cells[i] == before[i]);
                }
            }
        }
    }
}

/// Joined cells without the separator are got back by splitting.
pub proof fn law_split_of_joined(cells: Seq<Seq<char>>, c: char)
    requires
        cells.len() > 0,
        forall|i: int| 0 <= i < cells.len() ==> occurrences(#[trigger] cells[i], c) == 0,
    ensures
        split(joined(cells, seq![c]), c) == cells,
{
    law_split_joins_back(joined(cells, seq![c]), c);
    law_row_determines_its_cells(split(joined(cells, seq![c]), c), cells, c);
}

/// Terminated cells are got back by splitting, with an empty one after the last
/// terminator.
pub proof fn law_split_of_terminated(cells: Seq<Seq<char>>, c: char)
    requires
        forall|i: int| 0 <= i < cells.len() ==> occurrences(#[trigger] cells[i], c) == 0,
    ensures
        split(terminated(cells, seq![c]), c) == cells.push(Seq::empty()),
{
    let all = cells.push(Seq::empty());
    if cells.len() == 0 {
        assert(all =~= seq![Seq::<char>::empty()]);
    } else {
        let first = cells[0];
        let rest = cells.skip(1);
        assert(all.drop_last() =~= cells);
        assert(joined(all, seq![c]) =~= joined(cells, seq![c]) + seq![c]);
        assert(seq![first] + rest =~= cells);
        lemma_joined_and_terminated(first, rest, seq![c]);
        law_parts_after_each_other(seq![first], rest, seq![c]);
        assert(terminated(cells, seq![c]) =~= joined(all, seq![c]));
        assert forall|i: int| 0 <= i < all.len() implies occurrences(#[trigger] all[i], c) == 0 by {
            if i < cells.len() {
                assert(all[i] == cells[i]);
            }
        }
        law_split_of_joined(all, c);
    }
}

/// Joining, terminating and counting go part by part: two lists one after the
/// other give the text of the first, then that of the second. One part alone is
/// its own text.
pub proof fn law_parts_after_each_other(
    a: Seq<Seq<char>>,
    b: Seq<Seq<char>>,
    separator: Seq<char>,
)
    ensures
        a.len() > 0 && b.len() > 0 ==> joined(a + b, separator) == joined(a, separator) + separator
            + joined(b, separator),
        terminated(a + b, separator) == terminated(a, separator) + terminated(b, separator),
        a.len() == 1 ==> joined(a, separator) == a[0],
        a.len() == 1 ==> terminated(a, separator) == a[0] + separator,
    decreases b.len(),
{
    if a.len() == 1 {
        assert(terminated(a.drop_last(), separator) =~= Seq::<char>::empty());
        assert(terminated(a, separator) =~= a[0] + separator);
    }
    if b.len() == 0 {
        assert(a + b =~= a);
        assert(terminated(a, separator) + terminated(b, separator) =~= terminated(a, separator));
    } else {
        let rest = b.drop_last();
        law_parts_after_each_other(a, rest, separator);
        assert((a + b).drop_last() =~= a + rest);
        assert((a + b).last() == b.last());
        assert(terminated(a, separator) + terminated(rest, separator) + b.last() + separator
            =~= terminated(a, separator) + (terminated(rest, separator) + b.last() + separator));
        if a.len() > 0 {
            if rest.len() == 0 {
                assert(a + rest =~= a);
                assert(joined(b, separator) == b.last());
            } else {
                assert(joined(a, separator) + separator + joined(rest, separator) + separator
                    + b.last() =~= joined(a, separator) + separator + (joined(rest, separator)
                    + separator + b.last()));
            }
        }
    }
}

/// A list of strings stands for the list of their texts, one for one.
pub proof fn law_texts_one_for_one(list: Seq<String>, i: int)
    ensures
        texts(list).len() == list.len(),
        0 <= i < list.len() ==> texts(list)[i] == list[i]@,
{
}

/// Reading a number goes digit by digit: a digit more multiplies by ten.
pub proof fn law_value_digit_by_digit(s: Seq<char>, c: char)
    ensures
        value(Seq::empty()) == 0,
        value(s.push(c)) == 10 * value(s) + (c as int - '0' as int),
{
    assert(s.push(c).drop_last() =~= s);
}

/// Decimal notation has no leading zero: only zero itself begins with one.
pub proof fn law_decimal_has_no_leading_zero(n: nat)
    ensures
        decimal(n).len() > 0,
        decimal(n)[0] == '0' <==> n == 0,
        n == 0 ==> decimal(n).len() == 1,
    decreases n,
{
    if n >= 10 {
        law_decimal_has_no_leading_zero(n / 10);
    }
}

/// A number as it is written: digits, and no leading zero before another digit.
pub open spec fn is_number(s: Seq<char>) -> bool {
    &&& s.len() > 0
    &&& forall|i: int| 0 <= i < s.len() ==> '0' <= #[trigger] s[i] <= '9'
    &&& s.len() > 1 ==> s[0] != '0'
}

/// Decimal notation and reading undo each other: what is written for `n` is a
/// number that reads as `n`, and a written number is what its value is written as.
pub proof fn law_numbers_and_their_notation(n: nat, s: Seq<char>)
    ensures
        is_number(decimal(n)),
        value(decimal(n)) == n,
        is_number(s) ==> value(s) >= 0 && decimal(value(s) as nat) == s,
{
    law_decimal_reads_back(n);
    law_decimal_is_digits(n);
    law_decimal_has_no_leading_zero(n);
    if is_number(s) {
        lemma_number_reads(s);
    }
}

proof fn lemma_number_reads(s: Seq<char>)
    requires
        is_number(s),
    ensures
        value(s) >= 0,
        decimal(value(s) as nat) == s,
        s[0] != '0' ==> value(s) > 0,
    decreases s.len(),
{
    let rest = s.drop_last();
    let d = s.last() as int - 0x30;
    assert(s[s.len() - 1] == s.last());
    assert(0 <= d < 10);
    assert(digit(d as nat) == s.last());
    if s.len() == 1 {
        assert(value(rest) == 0);
        assert(value(s) == d);
        assert(s =~= seq![digit(d as nat)]);
    } else {
        assert forall|i: int| 0 <= i < rest.len() implies '0' <= #[trigger] rest[i] <= '9' by {
            assert(rest[i] == s[i]);
        }
        lemma_number_reads(rest);
        assert(rest[0] == s[0]);
        assert(value(s) / 10 == value(rest));
        assert(value(s) % 10 == d);
        assert(s =~= rest.push(s.last()));
    }
}

} // verus!
