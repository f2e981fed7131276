//! Text that the producers build: decimal numerals and joined lists.

use vstd::prelude::*;

verus! {

/// The character of a decimal digit.
pub open spec fn digit_char(d: nat) -> char
    recommends
        d < 10,
{
    (48 + d) as char
}

/// The decimal numeral of `n`, without sign or leading zeros.
pub open spec fn decimal(n: nat) -> Seq<char>
    decreases n,
{
    if n < 10 {
        seq![digit_char(n)]
    } else {
        decimal(n / 10).push(digit_char(n % 10))
    }
}

/// The strings of `list` joined, with `sep` between neighbours.
pub open spec fn joined(list: Seq<Seq<char>>, sep: Seq<char>) -> Seq<char>
    decreases list.len(),
{
    if list.len() == 0 {
        Seq::empty()
    } else if list.len() == 1 {
        list[0]
    } else {
        joined(list.drop_last(), sep) + sep + list.last()
    }
}

/// The views of a vector of strings.
pub open spec fn string_views(v: Seq<String>) -> Seq<Seq<char>> {
    v.map_values(|s: String| s@)
}

/// The numeral of one digit.
fn digit_str(d: u32) -> (s: &'static str)
    requires
        d < 10,
    ensures
        s@ == seq![digit_char(d as nat)],
{
    proof {
        reveal_strlit("0");
        reveal_strlit("1");
        reveal_strlit("2");
        reveal_strlit("3");
        reveal_strlit("4");
        reveal_strlit("5");
        reveal_strlit("6");
        reveal_strlit("7");
        reveal_strlit("8");
        reveal_strlit("9");
    }
    if d == 0 {
        "0"
    } else if d == 1 {
        "1"
    } else if d == 2 {
        "2"
    } else if d == 3 {
        "3"
    } else if d == 4 {
        "4"
    } else if d == 5 {
        "5"
    } else if d == 6 {
        "6"
    } else if d == 7 {
        "7"
    } else if d == 8 {
        "8"
    } else {
        "9"
    }
}

/// Writes `n` as a decimal numeral.
pub fn decimal_string(n: u32) -> (s: String)
    ensures
        s@ == decimal(n as nat),
        s@.len() >= 1,
        forall|i: int| 0 <= i < s@.len() ==> is_ascii_digit(#[trigger] s@[i]),
        numeral_value(s@) == n,
        n > 0 ==> (s@[0] as u32) != 48,
    decreases n,
{
    proof {
        lemma_decimal_is_numeral(n as nat);
    }
    if n < 10 {
        String::from_str(digit_str(n))
    } else {
        let mut s = decimal_string(n / 10);
        s.append(digit_str(n % 10));
        s
    }
}

/// A numeral is never empty, and its last digit is that of `n`.
pub proof fn lemma_decimal_last(n: nat)
    ensures
        decimal(n).len() >= 1,
        decimal(n).last() == digit_char(n % 10),
        n < 10 <==> decimal(n).len() == 1,
    decreases n,
{
    if n >= 10 {
        lemma_decimal_last(n / 10);
    }
}

/// Distinct numbers have distinct numerals.
pub proof fn lemma_decimal_injective(a: nat, b: nat)
    requires
        decimal(a) == decimal(b),
    ensures
        a == b,
    decreases a,
{
    lemma_decimal_last(a);
    lemma_decimal_last(b);
    assert(a % 10 == b % 10) by {
        assert((48 + a % 10) as char == (48 + b % 10) as char);
    }
    if a >= 10 && b >= 10 {
        assert(decimal(a / 10) == decimal(a).drop_last());
        assert(decimal(b / 10) == decimal(b).drop_last());
        lemma_decimal_injective(a / 10, b / 10);
    }
}

/// Whether `c` is one of the ASCII digits `0` to `9`.
pub open spec fn is_ascii_digit(c: char) -> bool {
    48 <= (c as u32) <= 57
}

/// The number that a string of decimal digits denotes, most significant
/// digit first (the empty string denotes 0).
pub open spec fn numeral_value(s: Seq<char>) -> int
    decreases s.len(),
{
    if s.len() == 0 {
        0
    } else {
        numeral_value(s.drop_last()) * 10 + ((s.last() as u32) as int - 48)
    }
}

/// `decimal(n)` is the standard decimal numeral of `n`: it is made of ASCII
/// digits only, it denotes `n`, and it has no leading zero.
pub proof fn lemma_decimal_is_numeral(n: nat)
    ensures
        decimal(n).len() >= 1,
        forall|i: int| 0 <= i < decimal(n).len() ==> is_ascii_digit(#[trigger] decimal(n)[i]),
        numeral_value(decimal(n)) == n,
        n > 0 ==> (decimal(n)[0] as u32) != 48,
    decreases n,
{
    let d = n % 10;
    assert(((48 + d) as char) as u32 == 48 + d);
    if n >= 10 {
        lemma_decimal_is_numeral(n / 10);
        let s = decimal(n);
        let p = decimal(n / 10);
        assert(s.drop_last() == p);
        assert(s.last() == digit_char(d));
        assert forall|i: int| 0 <= i < s.len() implies is_ascii_digit(#[trigger] s[i]) by {
            if i < p.len() {
                assert(s[i] == p[i]);
            }
        }
        assert(s[0] == p[0]);
        assert(numeral_value(s) == numeral_value(p) * 10 + d);
        assert(numeral_value(s) == (n / 10) * 10 + d);
    } else {
        let s = decimal(n);
        assert(s.drop_last() == Seq::<char>::empty());
        assert(numeral_value(s.drop_last()) == 0);
        assert(s.last() == digit_char(n));
        assert(numeral_value(s) == 0 * 10 + (n as int));
    }
}

/// The total length of the strings of `list`.
pub open spec fn total_len(list: Seq<Seq<char>>) -> nat
    decreases list.len(),
{
    if list.len() == 0 {
        0
    } else {
        total_len(list.drop_last()) + list.last().len()
    }
}

/// Where the `i`-th string of `list` begins once the list is joined with
/// `sep`: after the `i` strings before it and one separator after each.
pub open spec fn joined_offset(list: Seq<Seq<char>>, sep: Seq<char>, i: int) -> int {
    total_len(list.take(i)) + i * sep.len()
}

/// The length of a joined list: the total length of its strings plus one
/// separator fewer than there are strings.
proof fn lemma_joined_len(list: Seq<Seq<char>>, sep: Seq<char>)
    requires
        list.len() > 0,
    ensures
        joined(list, sep).len() == total_len(list) + (list.len() - 1) * sep.len(),
    decreases list.len(),
{
    let n = list.len();
    if n == 1 {
        assert(list.drop_last() == Seq::<Seq<char>>::empty());
        assert(joined(list, sep) == list[0]);
        assert(total_len(list) == total_len(list.drop_last()) + list.last().len());
    } else {
        let front = list.drop_last();
        lemma_joined_len(front, sep);
        assert(joined(list, sep) == joined(front, sep) + sep + list.last());
        assert(total_len(list) == total_len(front) + list.last().len());
        assert((n - 1) * sep.len() == (n - 2) * sep.len() + sep.len()) by (nonlinear_arith);
    }
}

/// The `i`-th string of a non-empty list ends within the joined text.
proof fn lemma_offset_bound(list: Seq<Seq<char>>, sep: Seq<char>, i: int)
    requires
        0 <= i < list.len(),
    ensures
        0 <= joined_offset(list, sep, i),
        joined_offset(list, sep, i) + list[i].len() <= total_len(list) + (list.len() - 1)
            * sep.len(),
    decreases list.len(),
{
    let n = list.len();
    assert(0 <= i * sep.len()) by (nonlinear_arith)
        requires
            0 <= i,
    ;
    let front = list.drop_last();
    if i < n - 1 {
        lemma_offset_bound(front, sep, i);
        assert(list.take(i) == front.take(i));
        assert(front[i] == list[i]);
        assert((n - 1) * sep.len() == (n - 2) * sep.len() + sep.len()) by (nonlinear_arith);
    } else {
        assert(list.take(i) == front);
    }
}

/// The `i`-th string of the list stands at its offset in the joined text.
proof fn lemma_joined_piece(list: Seq<Seq<char>>, sep: Seq<char>, i: int)
    requires
        0 <= i < list.len(),
    ensures
        joined(list, sep).subrange(
            joined_offset(list, sep, i),
            joined_offset(list, sep, i) + list[i].len(),
        ) == list[i],
    decreases list.len(),
{
    let n = list.len();
    let front = list.drop_last();
    let j = joined(list, sep);
    if n == 1 {
        assert(list.take(0) == Seq::<Seq<char>>::empty());
        assert(front == Seq::<Seq<char>>::empty());
        assert(j == list[0]);
        assert(joined_offset(list, sep, 0) == 0);
        assert(j.subrange(0, list[0].len() as int) == list[0]);
    } else if i < n - 1 {
        lemma_joined_piece(front, sep, i);
        lemma_offset_bound(front, sep, i);
        lemma_joined_len(front, sep);
        let jf = joined(front, sep);
        assert(j == jf + sep + list.last());
        assert(list.take(i) == front.take(i));
        assert(front[i] == list[i]);
        let a = joined_offset(front, sep, i);
        assert(joined_offset(list, sep, i) == a);
        assert(j.subrange(a, a + list[i].len()) =~= jf.subrange(a, a + front[i].len()));
    } else {
        lemma_joined_len(front, sep);
        let jf = joined(front, sep);
        assert(j == jf + sep + list.last());
        assert(list.take(i) == front);
        assert((n - 1) * sep.len() == (n - 2) * sep.len() + sep.len()) by (nonlinear_arith);
        assert(joined_offset(list, sep, i) == jf.len() + sep.len());
        assert(j.subrange((jf.len() + sep.len()) as int, j.len() as int) == list.last());
    }
}

/// One separator stands just before the `i`-th string, for every string but
/// the first.
proof fn lemma_joined_separator(list: Seq<Seq<char>>, sep: Seq<char>, i: int)
    requires
        0 < i < list.len(),
    ensures
        joined(list, sep).subrange(
            joined_offset(list, sep, i) - sep.len(),
            joined_offset(list, sep, i),
        ) == sep,
    decreases list.len(),
{
    let n = list.len();
    let front = list.drop_last();
    let j = joined(list, sep);
    let jf = joined(front, sep);
    assert(j == jf + sep + list.last());
    lemma_joined_len(front, sep);
    if i < n - 1 {
        lemma_joined_separator(front, sep, i);
        lemma_offset_bound(front, sep, i);
        assert(list.take(i) == front.take(i));
        let a = joined_offset(front, sep, i);
        assert(joined_offset(list, sep, i) == a);
        assert(i * sep.len() >= sep.len()) by (nonlinear_arith)
            requires
                i >= 1,
        ;
        assert(a >= sep.len());
        assert(a <= jf.len());
        assert(j.subrange(a - sep.len(), a) =~= jf.subrange(a - sep.len(), a));
    } else {
        assert(list.take(i) == front);
        assert((n - 1) * sep.len() == (n - 2) * sep.len() + sep.len()) by (nonlinear_arith);
        assert(joined_offset(list, sep, i) == jf.len() + sep.len());
        assert(j.subrange(jf.len() as int, (jf.len() + sep.len()) as int) == sep);
    }
}

/// Joining puts every string of the list, in order, at its place, with one
/// separator between neighbours and nothing else: the result has the total
/// length of the strings plus one separator fewer than there are strings.
pub proof fn lemma_joined_layout(list: Seq<Seq<char>>, sep: Seq<char>)
    ensures
        list.len() == 0 ==> joined(list, sep).len() == 0,
        list.len() > 0 ==> joined(list, sep).len() == total_len(list) + (list.len() - 1)
            * sep.len(),
        forall|i: int|
            0 <= i < list.len() ==> joined(list, sep).subrange(
                joined_offset(list, sep, i),
                joined_offset(list, sep, i) + list[i].len(),
            ) == #[trigger] list[i],
        forall|i: int|
            0 < i < list.len() ==> joined(list, sep).subrange(
                #[trigger] joined_offset(list, sep, i) - sep.len(),
                joined_offset(list, sep, i),
            ) == sep,
{
    if list.len() > 0 {
        lemma_joined_len(list, sep);
    }
    assert forall|i: int| 0 <= i < list.len() implies joined(list, sep).subrange(
        joined_offset(list, sep, i),
        joined_offset(list, sep, i) + list[i].len(),
    ) == #[trigger] list[i] by {
        lemma_joined_piece(list, sep, i);
    }
    assert forall|i: int| 0 < i < list.len() implies joined(list, sep).subrange(
        #[trigger] joined_offset(list, sep, i) - sep.len(),
        joined_offset(list, sep, i),
    ) == sep by {
        lemma_joined_separator(list, sep, i);
    }
}

/// Joins the strings of `list`, with `sep` between neighbours.
pub fn join_strings(list: &Vec<String>, sep: &str) -> (res: String)
    ensures
        res@ == joined(string_views(list@), sep@),
        list@.len() == 0 ==> res@.len() == 0,
        list@.len() > 0 ==> res@.len() == total_len(string_views(list@)) + (
        string_views(list@).len() - 1) * sep@.len(),
        forall|i: int|
            0 <= i < string_views(list@).len() ==> res@.subrange(
                joined_offset(string_views(list@), sep@, i),
                joined_offset(string_views(list@), sep@, i) + string_views(list@)[i].len(),
            ) == #[trigger] string_views(list@)[i],
        forall|i: int|
            0 < i < string_views(list@).len() ==> res@.subrange(
                #[trigger] joined_offset(string_views(list@), sep@, i) - sep@.len(),
                joined_offset(string_views(list@), sep@, i),
            ) == sep@,
{
    let ghost views = string_views(list@);
    let mut res = String::new();
    let mut i: usize = 0;
    while i < list.len()
        invariant
            i <= list.len(),
            views == string_views(list@),
            res@ == joined(views.take(i as int), sep@),
        decreases list.len() - i,
    {
        assert(views.take(i + 1).drop_last() == views.take(i as int));
        if i != 0 {
            res.append(sep);
        }
        res.append(list[i].as_str());
        i = i + 1;
    }
    assert(views.take(list.len() as int) == views);
    proof {
        lemma_joined_layout(views, sep@);
    }
    res
}

} // verus!
