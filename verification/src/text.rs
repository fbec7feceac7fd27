//! Splitting, trimming and printing of text, stated over the characters of a string.

use vstd::prelude::*;

verus! {

broadcast use vstd::string::group_string_axioms;

/// The characters of a text that may be missing.
pub open spec fn opt_view(s: Option<&str>) -> Option<Seq<char>> {
    match s {
        Some(s) => Some(s@),
        None => None,
    }
}

/// The position of the first `c` in `s`, or the length of `s` where there is none.
pub open spec fn first_index(s: Seq<char>, c: char) -> int
    decreases s.len(),
{
    if s.len() == 0 || s[0] == c {
        0
    } else {
        1 + first_index(s.drop_first(), c)
    }
}

/// What stands before and after the first `c` in `s`, if there is one.
pub open spec fn split_once(s: Seq<char>, c: char) -> Option<(Seq<char>, Seq<char>)> {
    if s.contains(c) {
        let i = first_index(s, c);
        Some((s.take(i), s.skip(i + 1)))
    } else {
        None
    }
}

/// `s` without the run of `c` that it begins with.
pub open spec fn trim_start(s: Seq<char>, c: char) -> Seq<char>
    decreases s.len(),
{
    if s.len() > 0 && s[0] == c {
        trim_start(s.drop_first(), c)
    } else {
        s
    }
}

/// `first_index` is the first position that holds `c`.
pub proof fn lemma_first_index(s: Seq<char>, c: char)
    ensures
        0 <= first_index(s, c) <= s.len(),
        forall|j: int| 0 <= j < first_index(s, c) ==> s[j] != c,
        s.contains(c) <==> first_index(s, c) < s.len(),
        first_index(s, c) < s.len() ==> s[first_index(s, c)] == c,
    decreases s.len(),
{
    if s.len() > 0 && s[0] != c {
        let rest = s.drop_first();
        lemma_first_index(rest, c);
        assert forall|j: int| 0 <= j < first_index(s, c) implies s[j] != c by {
            if j > 0 {
                assert(rest[j - 1] == s[j]);
            }
        }
        if s.contains(c) {
            let k = choose|k: int| 0 <= k < s.len() && s[k] == c;
            assert(rest[k - 1] == c);
        }
        if rest.contains(c) {
            let k = choose|k: int| 0 <= k < rest.len() && rest[k] == c;
            assert(s[k + 1] == c);
        }
    } else if s.len() > 0 {
        assert(s.contains(c));
    }
}

/// A position that holds `c` with no `c` before it is `first_index`.
pub proof fn lemma_first_index_unique(s: Seq<char>, c: char, i: int)
    requires
        0 <= i < s.len(),
        s[i] == c,
        forall|j: int| 0 <= j < i ==> s[j] != c,
    ensures
        first_index(s, c) == i,
        s.contains(c),
{
    lemma_first_index(s, c);
}

/// The position of the first `c` in `s`.
pub fn find_char(s: &str, c: char) -> (r: Option<usize>)
    ensures
        match r {
            Some(i) => s@.contains(c) && i == first_index(s@, c) && i < s@.len(),
            None => !s@.contains(c),
        },
{
    let n: usize = s.unicode_len();
    let mut i: usize = 0;
    for x in it: s.chars()
        invariant
            it.seq() == s@,
            n == s@.len(),
            i == it.index(),
            forall|j: int| 0 <= j < i ==> s@[j] != c,
    {
        if x == c {
            proof {
                lemma_first_index_unique(s@, c, i as int);
            }
            return Some(i);
        }
        i = i + 1;
    }
    None
}

/// The parts of `s` before and after its first `c`.
pub fn split_at_char(s: &str, c: char) -> (r: Option<(String, String)>)
    ensures
        match r {
            Some((before, after)) => split_once(s@, c) == Some((before@, after@)),
            None => split_once(s@, c) is None,
        },
{
    match find_char(s, c) {
        Some(i) => {
            let n: usize = s.unicode_len();
            let before = s.substring_char(0, i).to_owned();
            let after = s.substring_char(i + 1, n).to_owned();
            Some((before, after))
        },
        None => None,
    }
}

/// `s` without the run of `c` that it begins with.
pub fn trim_start_char(s: &str, c: char) -> (r: String)
    ensures
        r@ == trim_start(s@, c),
{
    let n: usize = s.unicode_len();
    let mut i: usize = 0;
    assert(s@.skip(0) == s@);
    for x in it: s.chars()
        invariant
            it.seq() == s@,
            n == s@.len(),
            i == it.index(),
            trim_start(s@, c) == trim_start(s@.skip(i as int), c),
    {
        if x != c {
            return s.substring_char(i, n).to_owned();
        }
        assert(s@.skip(i as int).drop_first() == s@.skip(i + 1));
        i = i + 1;
    }
    s.substring_char(n, n).to_owned()
}

/// What is left of a line whose line feed has been taken off: a carriage return before it goes too.
pub open spec fn strip_return(line: Seq<char>) -> Seq<char> {
    if line.len() > 0 && line.last() == '\r' {
        line.drop_last()
    } else {
        line
    }
}

/// The lines of `s`. A line ends with a line feed or with a carriage return and a line feed,
/// neither of which belongs to it; the last line need not end with either.
pub open spec fn lines(s: Seq<char>) -> Seq<Seq<char>>
    decreases s.len(),
{
    if s.len() == 0 {
        seq![]
    } else if !s.contains('\n') {
        seq![s]
    } else {
        let i = first_index(s, '\n');
        proof {
            lemma_first_index(s, '\n');
        }
        seq![strip_return(s.take(i))] + lines(s.skip(i + 1))
    }
}

/// The characters of each string.
pub open spec fn views(v: Seq<String>) -> Seq<Seq<char>> {
    v.map_values(|s: String| s@)
}

/// The lines of `s`.
pub fn split_lines(s: &str) -> (r: Vec<String>)
    ensures
        views(r@) == lines(s@),
{
    let mut out: Vec<String> = Vec::new();
    let mut rest: String = s.to_owned();
    loop
        invariant
            views(out@) + lines(rest@) == lines(s@),
        decreases rest@.len(),
    {
        proof {
            lemma_first_index(rest@, '\n');
        }
        let n: usize = rest.as_str().unicode_len();
        if n == 0 {
            assert(views(out@) + lines(rest@) == views(out@));
            return out;
        }
        match find_char(rest.as_str(), '\n') {
            Some(i) => {
                let end: usize = if i > 0 && rest.as_str().get_char(i - 1) == '\r' {
                    i - 1
                } else {
                    i
                };
                let line = rest.as_str().substring_char(0, end).to_owned();
                let ghost before = out@;
                let ghost taken = rest@;
                assert(line@ == strip_return(taken.take(i as int)));
                out.push(line);
                rest = rest.as_str().substring_char(i + 1, n).to_owned();
                assert(rest@ == taken.skip(i + 1));
                assert(views(out@) == views(before).push(line@));
                assert(views(out@) + lines(rest@) == views(before) + lines(taken));
            },
            None => {
                let ghost before = out@;
                out.push(rest);
                assert(views(out@) == views(before).push(rest@));
                return out;
            },
        }
    }
}

/// The decimal digit of a number below ten.
pub open spec fn digit(d: nat) -> char {
    (d + 48) as char
}

/// `n` in decimal, without leading zeros.
pub open spec fn decimal(n: nat) -> Seq<char>
    decreases n,
{
    if n < 10 {
        seq![digit(n)]
    } else {
        decimal(n / 10).push(digit(n % 10))
    }
}

/// The number that a run of decimal digits stands for.
pub open spec fn decimal_value(s: Seq<char>) -> int
    decreases s.len(),
{
    if s.len() == 0 {
        0
    } else {
        10 * decimal_value(s.drop_last()) + (s.last() as int - 48)
    }
}

/// A number can be read back from its decimal form, which holds nothing but digits.
pub proof fn lemma_decimal(n: nat)
    ensures
        decimal_value(decimal(n)) == n,
        decimal(n).len() > 0,
        forall|i: int| 0 <= i < decimal(n).len() ==> '0' <= #[trigger] decimal(n)[i] <= '9',
    decreases n,
{
    if n < 10 {
        reveal_with_fuel(decimal_value, 2);
    } else {
        lemma_decimal(n / 10);
        assert(decimal(n).drop_last() == decimal(n / 10));
    }
}

/// The decimal digit of a number below ten.
fn digit_text(d: u32) -> (r: &'static str)
    requires
        d < 10,
    ensures
        r@ == seq![digit(d as nat)],
{
    proof {
        reveal_strlit("0");
        reveal_strlit("1");
        reveal_strlit("2");
        reveal_strlit("3");
        reveal_strlit("4");
        reveal_strlit("5");
        reveal_strlit("6");
        reveal_strlit("7");
        reveal_strlit("8");
        reveal_strlit("9");
    }
    match d {
        0 => "0",
        1 => "1",
        2 => "2",
        3 => "3",
        4 => "4",
        5 => "5",
        6 => "6",
        7 => "7",
        8 => "8",
        _ => "9",
    }
}

/// `n` in decimal, without leading zeros.
pub fn decimal_text(n: u32) -> (r: String)
    ensures
        r@ == decimal(n as nat),
    decreases n,
{
    if n < 10 {
        digit_text(n).to_owned()
    } else {
        let mut text = decimal_text(n / 10);
        text.append(digit_text(n % 10));
        text
    }
}

/// A text that may be missing has the characters of the text, if it is there.
pub proof fn law_opt_view(s: Option<&str>)
    ensures
        opt_view(s) is None <==> s is None,
        s matches Some(text) ==> opt_view(s)->0 == text@,
{
}

/// There are as many texts as strings, and each has the characters of its string.
pub proof fn law_views(v: Seq<String>)
    ensures
        views(v).len() == v.len(),
        forall|i: int| 0 <= i < v.len() ==> #[trigger] views(v)[i] == v[i]@,
{
}

/// A text is split where a `c` stands for the first time: the part before it, which holds no `c`,
/// the `c` and the part after it make up the text. A text without a `c` is not split.
pub proof fn law_split_once(s: Seq<char>, c: char)
    ensures
        match split_once(s, c) {
            Some((before, after)) => s == before + seq![c] + after && forall|i: int|
                0 <= i < before.len() ==> #[trigger] before[i] != c,
            None => forall|i: int| 0 <= i < s.len() ==> #[trigger] s[i] != c,
        },
{
    lemma_first_index(s, c);
    if let Some((before, after)) = split_once(s, c) {
        assert(s == before + seq![c] + after);
    }
}

/// Trimming takes off characters at the beginning, all of them `c`, and as many as it can: what is
/// left is empty or begins with another character.
pub proof fn law_trim_start(s: Seq<char>, c: char)
    ensures
        ({
            let left = trim_start(s, c);
            let k = s.len() - left.len();
            &&& 0 <= k <= s.len()
            &&& left == s.skip(k)
            &&& forall|i: int| 0 <= i < k ==> #[trigger] s[i] == c
            &&& left.len() == 0 || left[0] != c
        }),
    decreases s.len(),
{
    if s.len() > 0 && s[0] == c {
        let rest = s.drop_first();
        law_trim_start(rest, c);
        let k = rest.len() - trim_start(rest, c).len();
        assert(rest.skip(k) == s.skip(k + 1));
        assert forall|i: int| 0 <= i < k + 1 implies #[trigger] s[i] == c by {
            if i > 0 {
                assert(rest[i - 1] == s[i]);
            }
        }
    } else {
        assert(s.skip(0) == s);
    }
}

/// A run of `c` before a text that does not begin with one is taken off, however long it is, and
/// the text is left.
pub proof fn law_trim_of_run(k: nat, name: Seq<char>, c: char)
    requires
        name.len() == 0 || name[0] != c,
    ensures
        trim_start(Seq::new(k, |i: int| c) + name, c) == name,
{
    let s = Seq::new(k, |i: int| c) + name;
    law_trim_start(s, c);
    let n = s.len() - trim_start(s, c).len();
    if n < k {
        assert(s[n] == c);
        assert(s.skip(n)[0] == s[n]);
    }
    if n > k {
        assert(s[k as int] == name[0]);
    }
    assert(s.skip(k as int) == name);
}

/// How text is divided into lines. A line is what stands before a line feed, or before a carriage
/// return and a line feed, and the text after that is divided in the same way. Text without a line
/// feed is one line as it is, and no text is no line.
pub proof fn law_lines(line: Seq<char>, rest: Seq<char>)
    requires
        !line.contains('\n'),
    ensures
        line.len() == 0 || line.last() != '\r' ==> lines(line + seq!['\n'] + rest) == seq![line]
            + lines(rest),
        lines(line + seq!['\r', '\n'] + rest) == seq![line] + lines(rest),
        line.len() > 0 ==> lines(line) == seq![line],
        lines(Seq::empty()).len() == 0,
{
    let n = line.len() as int;
    let one = line + seq!['\n'] + rest;
    assert forall|j: int| 0 <= j < n implies one[j] != '\n' by {
        assert(one[j] == line[j]);
    }
    lemma_first_index_unique(one, '\n', n);
    assert(one.take(n) == line);
    assert(one.skip(n + 1) == rest);
    let two = line + seq!['\r', '\n'] + rest;
    assert forall|j: int| 0 <= j < n + 1 implies two[j] != '\n' by {
        if j < n {
            assert(two[j] == line[j]);
        }
    }
    lemma_first_index_unique(two, '\n', n + 1);
    assert(two.take(n + 1) == line.push('\r'));
    assert(line.push('\r').drop_last() == line);
    assert(two.skip(n + 2) == rest);
}

/// The decimal form is made of the ten digits, and each digit more stands for ten times as much: a
/// number below ten is its digit, and ten times `n` and `d` is `n` followed by the digit of `d`.
pub proof fn law_decimal_digits(n: nat, d: nat)
    requires
        d < 10,
    ensures
        decimal(d) == seq!["0123456789"@[d as int]],
        n > 0 ==> decimal(10 * n + d) == decimal(n).push("0123456789"@[d as int]),
{
    reveal_strlit("0123456789");
    assert((10 * n + d) / 10 == n && (10 * n + d) % 10 == d);
}

/// A run of digits stands for the sum of its digits, each times ten for every digit after it.
pub proof fn law_decimal_value(s: Seq<char>, d: nat)
    requires
        d < 10,
    ensures
        decimal_value(Seq::empty()) == 0,
        decimal_value(s.push("0123456789"@[d as int])) == 10 * decimal_value(s) + d,
{
    reveal_strlit("0123456789");
    let longer = s.push("0123456789"@[d as int]);
    assert(longer.drop_last() == s);
}

} // verus!
