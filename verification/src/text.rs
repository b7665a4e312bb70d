//! Character-level helpers shared by the parsers: splitting at a separator,
//! cutting a block of text into lines, and reading decimal numbers.

use vstd::prelude::*;
use vstd::string::{StrSliceExecFns, StringExecFns};

verus! {

/// Position of the first element of `s` that meets `p`, or `s.len()` when
/// none does.
pub open spec fn first_where<T>(s: Seq<T>, p: spec_fn(T) -> bool) -> nat
    decreases s.len(),
{
    if s.len() == 0 {
        0
    } else if p(s[0]) {
        0
    } else {
        1 + first_where(s.drop_first(), p)
    }
}

/// `first_where` stays within the sequence, nothing before it meets `p`,
/// and the element at it, if any, does.
pub proof fn lemma_first_where<T>(s: Seq<T>, p: spec_fn(T) -> bool)
    ensures
        first_where(s, p) <= s.len(),
        forall|j: int| 0 <= j < first_where(s, p) ==> !p(#[trigger] s[j]),
        first_where(s, p) < s.len() ==> p(s[first_where(s, p) as int]),
    decreases s.len(),
{
    if s.len() != 0 && !p(s[0]) {
        let t = s.drop_first();
        lemma_first_where(t, p);
        assert forall|j: int| 0 <= j < first_where(s, p) implies !p(#[trigger] s[j]) by {
            if j > 0 {
                assert(s[j] == t[j - 1]);
            }
        }
        if first_where(s, p) < s.len() {
            assert(s[first_where(s, p) as int] == t[first_where(t, p) as int]);
        }
    }
}

/// Any position `k` that has nothing meeting `p` before it, and either ends
/// the sequence or holds an element that meets `p`, is the first such
/// position.
pub proof fn lemma_first_where_is<T>(s: Seq<T>, p: spec_fn(T) -> bool, k: int)
    requires
        0 <= k <= s.len(),
        forall|j: int| 0 <= j < k ==> !p(#[trigger] s[j]),
        k < s.len() ==> p(s[k]),
    ensures
        first_where(s, p) == k,
{
    lemma_first_where(s, p);
    let f = first_where(s, p) as int;
    if f < k {
        assert(!p(s[f]));
    } else if k < f {
        assert(!p(s[k]));
    }
}

/// The test for being the character `c`.
pub open spec fn is_char(c: char) -> spec_fn(char) -> bool {
    |x: char| x == c
}

/// Position of the first `c` in `s`, or `s.len()` when `s` holds no `c`.
pub open spec fn first_index(s: Seq<char>, c: char) -> nat {
    first_where(s, is_char(c))
}

/// The text before the first `sep` and the text after it, or `None` when
/// `s` holds no `sep`.
pub open spec fn split_once(s: Seq<char>, sep: char) -> Option<(Seq<char>, Seq<char>)> {
    let k = first_index(s, sep) as int;
    if k < s.len() {
        Some((s.take(k), s.skip(k + 1)))
    } else {
        None
    }
}

/// Whether `c` occurs nowhere in `s`.
pub open spec fn holds_no(s: Seq<char>, c: char) -> bool {
    forall|i: int| 0 <= i < s.len() ==> #[trigger] s[i] != c
}

/// A text made of `head`, one `sep` and `tail` is cut into `head` and
/// `tail`, provided that `head` holds no `sep`.
pub proof fn lemma_split_once_joined(head: Seq<char>, sep: char, tail: Seq<char>)
    requires
        holds_no(head, sep),
    ensures
        split_once(head + seq![sep] + tail, sep) == Some((head, tail)),
{
    let text = head + seq![sep] + tail;
    assert forall|j: int| 0 <= j < head.len() implies !is_char(sep)(#[trigger] text[j]) by {
        assert(text[j] == head[j]);
    }
    assert(text[head.len() as int] == sep);
    lemma_first_where_is(text, is_char(sep), head.len() as int);
    assert(text.take(head.len() as int) == head);
    assert(text.skip(head.len() as int + 1) == tail);
}

/// `line` without one trailing carriage return.
pub open spec fn strip_cr(line: Seq<char>) -> Seq<char> {
    if line.len() > 0 && line.last() == '\r' {
        line.drop_last()
    } else {
        line
    }
}

/// The lines of `text`. A line ends at `"\n"` or `"\r\n"`; the terminator is
/// not part of the line. Text after the last terminator is a line of its own
/// unless it is empty, so the empty text has no lines.
pub open spec fn lines_of(text: Seq<char>) -> Seq<Seq<char>>
    decreases text.len(),
{
    let k = first_index(text, '\n') as int;
    if text.len() == 0 {
        Seq::empty()
    } else if k < text.len() {
        seq![strip_cr(text.take(k))] + lines_of(text.skip(k + 1))
    } else {
        seq![text]
    }
}

/// The text made of `lines` with a line feed between any two of them.
pub open spec fn joined(lines: Seq<Seq<char>>) -> Seq<char>
    decreases lines.len(),
{
    if lines.len() == 0 {
        Seq::empty()
    } else if lines.len() == 1 {
        lines[0]
    } else {
        lines[0] + seq!['\n'] + joined(lines.drop_first())
    }
}

/// Whether `line` can stand in a text as a line of its own: it holds no
/// line feed and does not end in a carriage return.
pub open spec fn is_plain_line(line: Seq<char>) -> bool {
    &&& holds_no(line, '\n')
    &&& !(line.len() > 0 && line.last() == '\r')
}

/// Cutting a text into lines undoes joining lines to a text, for lines that
/// can stand in a text and of which the last is not empty.
pub proof fn lemma_lines_of_joined(lines: Seq<Seq<char>>)
    requires
        forall|i: int| 0 <= i < lines.len() ==> is_plain_line(#[trigger] lines[i]),
        lines.len() > 0 ==> lines.last().len() > 0,
    ensures
        lines_of(joined(lines)) == lines,
    decreases lines.len(),
{
    if lines.len() == 1 {
        let text = lines[0];
        assert(is_plain_line(text));
        lemma_first_where_is(text, is_char('\n'), text.len() as int);
        assert(lines_of(text) =~= lines);
    } else if lines.len() > 1 {
        let rest = lines.drop_first();
        assert forall|i: int| 0 <= i < rest.len() implies is_plain_line(#[trigger] rest[i]) by {
            assert(rest[i] == lines[i + 1]);
        }
        assert(rest.last() == lines.last());
        lemma_lines_of_joined(rest);
        assert(is_plain_line(lines[0]));
        lemma_split_once_joined(lines[0], '\n', joined(rest));
        let text = joined(lines);
        assert(text.len() > 0);
        assert(lines_of(text) =~= seq![lines[0]] + rest);
        assert(seq![lines[0]] + rest =~= lines);
    }
}

/// What lines joined to a text are read back as: a carriage return at the
/// end of a line goes with the line feed that follows it, so every line
/// but the last comes back without it; and an empty last line does not
/// come back, because a line feed at the end of a text opens no line.
pub open spec fn read_back(lines: Seq<Seq<char>>) -> Seq<Seq<char>>
    decreases lines.len(),
{
    if lines.len() == 0 {
        Seq::empty()
    } else if lines.len() == 1 {
        if lines[0].len() == 0 {
            Seq::empty()
        } else {
            seq![lines[0]]
        }
    } else {
        seq![strip_cr(lines[0])] + read_back(lines.drop_first())
    }
}

/// Lines that hold no line feed, joined to a text, are read back as
/// `read_back` says.
pub proof fn lemma_lines_of_joined_any(lines: Seq<Seq<char>>)
    requires
        forall|i: int| 0 <= i < lines.len() ==> holds_no(#[trigger] lines[i], '\n'),
    ensures
        lines_of(joined(lines)) == read_back(lines),
    decreases lines.len(),
{
    if lines.len() == 1 {
        let text = lines[0];
        assert(holds_no(text, '\n'));
        lemma_first_where_is(text, is_char('\n'), text.len() as int);
        assert(lines_of(text) =~= read_back(lines));
    } else if lines.len() > 1 {
        let rest = lines.drop_first();
        assert forall|i: int| 0 <= i < rest.len() implies holds_no(#[trigger] rest[i], '\n') by {
            assert(rest[i] == lines[i + 1]);
        }
        lemma_lines_of_joined_any(rest);
        assert(holds_no(lines[0], '\n'));
        lemma_split_once_joined(lines[0], '\n', joined(rest));
        let text = joined(lines);
        assert(text.len() > 0);
        assert(lines_of(text) =~= seq![strip_cr(lines[0])] + read_back(rest));
    }
}

/// Where the lines read back stand: every line but the last at its own
/// place, without a carriage return at its end; and the last line at its
/// own place as it is, unless it is empty.
pub proof fn lemma_read_back_at(lines: Seq<Seq<char>>, k: int)
    requires
        0 <= k < lines.len(),
    ensures
        k < lines.len() - 1 ==> k < read_back(lines).len() && read_back(lines)[k] == strip_cr(
            lines[k],
        ),
        k == lines.len() - 1 && lines[k].len() > 0 ==> read_back(lines).len() == lines.len()
            && read_back(lines)[k] == lines[k],
    decreases lines.len(),
{
    if lines.len() > 1 {
        let rest = lines.drop_first();
        if k > 0 {
            lemma_read_back_at(rest, k - 1);
            assert(rest[k - 1] == lines[k]);
        } else {
            assert(read_back(lines)[0] == strip_cr(lines[0]));
        }
        if k == lines.len() - 1 && lines[k].len() > 0 {
            assert(read_back(lines).len() == 1 + read_back(rest).len());
        }
    }
}

/// Whether `c` is one of the ASCII digits.
pub open spec fn is_digit(c: char) -> bool {
    '0' <= c && c <= '9'
}

/// The number that the ASCII digit `c` stands for.
pub open spec fn digit_value(c: char) -> int {
    c as int - '0' as int
}

/// Whether `s` consists of ASCII digits only.
pub open spec fn all_digits(s: Seq<char>) -> bool {
    forall|i: int| 0 <= i < s.len() ==> is_digit(#[trigger] s[i])
}

/// The number written by the digits `s` in base ten; 0 for the empty text.
pub open spec fn decimal_value(s: Seq<char>) -> int
    decreases s.len(),
{
    if s.len() == 0 {
        0
    } else {
        10 * decimal_value(s.drop_last()) + digit_value(s.last())
    }
}

/// The integer written by `s`: an optional sign, then at least one digit.
pub open spec fn integer_of(s: Seq<char>) -> Option<int> {
    let signed = s.len() > 0 && (s[0] == '-' || s[0] == '+');
    let digits = if signed {
        s.skip(1)
    } else {
        s
    };
    if digits.len() == 0 || !all_digits(digits) {
        None
    } else if s[0] == '-' {
        Some(-decimal_value(digits))
    } else {
        Some(decimal_value(digits))
    }
}

/// A number of digits is never negative, and no smaller than the number
/// written by any of its prefixes.
pub proof fn lemma_decimal_prefix(s: Seq<char>, i: int)
    requires
        all_digits(s),
        0 <= i <= s.len(),
    ensures
        0 <= decimal_value(s.take(i)) <= decimal_value(s),
    decreases s.len() - i,
{
    if i == s.len() {
        assert(s.take(i) == s);
        lemma_decimal_nonnegative(s);
    } else {
        lemma_decimal_prefix(s, i + 1);
        let t = s.take(i + 1);
        assert(t.drop_last() == s.take(i));
        assert(is_digit(s[i]));
        assert(t.last() == s[i]);
        lemma_decimal_nonnegative(s.take(i));
    }
}

/// A number of digits is never negative.
pub proof fn lemma_decimal_nonnegative(s: Seq<char>)
    requires
        all_digits(s),
    ensures
        0 <= decimal_value(s),
    decreases s.len(),
{
    if s.len() > 0 {
        assert(is_digit(s.last()));
        lemma_decimal_nonnegative(s.drop_last());
    }
}

/// The characters of `s`, in order.
pub fn chars_of(s: &str) -> (v: Vec<char>)
    ensures
        v@ == s@,
{
    let mut v: Vec<char> = Vec::new();
    for c in it: s.chars()
        invariant
            v@ == it.seq().take(it.index() as int),
            it.seq() == s@,
    {
        v.push(c);
    }
    v
}

/// Position of the first `c` in `v` at or after `from`, or `v.len()` when
/// there is none.
pub fn find_char_from(v: &Vec<char>, c: char, from: usize) -> (k: usize)
    requires
        from <= v.len(),
    ensures
        from <= k <= v.len(),
        k - from == first_index(v@.skip(from as int), c),
{
    let mut k: usize = from;
    while k < v.len() && v[k] != c
        invariant
            from <= k <= v.len(),
            forall|j: int| from <= j < k ==> v@[j] != c,
        decreases v.len() - k,
    {
        k += 1;
    }
    proof {
        lemma_first_where_is(v@.skip(from as int), is_char(c), k - from);
    }
    k
}

/// Position of the first `c` in `v`, or `v.len()` when there is none.
pub fn find_char(v: &Vec<char>, c: char) -> (k: usize)
    ensures
        k == first_index(v@, c),
        k <= v.len(),
{
    assert(v@.skip(0) == v@);
    find_char_from(v, c, 0)
}

/// Cuts `s` at its first `sep`: the text before it and the text after it.
/// `None` when `s` holds no `sep`.
pub fn cut_at<'a>(s: &'a str, sep: char) -> (res: Option<(&'a str, &'a str)>)
    ensures
        match res {
            Some((head, tail)) => split_once(s@, sep) == Some((head@, tail@)),
            None => split_once(s@, sep) is None,
        },
{
    let chars = chars_of(s);
    let k = find_char(&chars, sep);
    if k < chars.len() {
        let head = s.substring_char(0, k);
        let tail = s.substring_char(k + 1, chars.len());
        Some((head, tail))
    } else {
        None
    }
}

/// Whether `c` is one of the ASCII digits.
pub fn is_digit_char(c: char) -> (b: bool)
    ensures
        b == is_digit(c),
{
    '0' <= c && c <= '9'
}

/// The count written by `s`: the integer it writes, where that lies between
/// 0 and 32767.
pub open spec fn count_of(s: Seq<char>) -> Option<i16> {
    match integer_of(s) {
        Some(v) => if 0 <= v <= i16::MAX {
            Some(v as i16)
        } else {
            None
        },
        None => None,
    }
}

/// Reads a count: an optional sign and decimal digits that write a number
/// between 0 and 32767. Anything else gives `None`.
pub fn read_count(s: &str) -> (res: Option<i16>)
    ensures
        res == count_of(s@),
{
    let chars = chars_of(s);
    let n = chars.len();
    let mut negative = false;
    let mut start: usize = 0;
    if n > 0 && (chars[0] == '-' || chars[0] == '+') {
        negative = chars[0] == '-';
        start = 1;
    }
    if start == n {
        return None;
    }
    let ghost digits = s@.skip(start as int);
    assert(s@.skip(0) == s@);
    let mut acc: i32 = 0;
    let mut i: usize = start;
    while i < n
        invariant
            chars@ == s@,
            n == chars.len(),
            digits == s@.skip(start as int),
            s@.skip(0) == s@,
            start == 1 <==> s@[0] == '-' || s@[0] == '+',
            negative <==> s@[0] == '-',
            start <= 1,
            start <= i <= n,
            start < n,
            all_digits(digits.take(i - start)),
            acc == decimal_value(digits.take(i - start)),
            0 <= acc <= i16::MAX,
        decreases n - i,
    {
        let c = chars[i];
        if !is_digit_char(c) {
            assert(digits[i - start] == c);
            return None;
        }
        let d: i32 = (c as u32 - '0' as u32) as i32;
        let next: i32 = acc * 10 + d;
        proof {
            let t = digits.take(i + 1 - start);
            assert(t.drop_last() == digits.take(i - start));
            assert(t.last() == c);
            assert(next == decimal_value(t));
            assert(all_digits(t)) by {
                assert forall|j: int| 0 <= j < t.len() implies is_digit(#[trigger] t[j]) by {
                    if j < t.len() - 1 {
                        assert(t[j] == digits.take(i - start)[j]);
                    }
                }
            }
            if all_digits(digits) {
                lemma_decimal_prefix(digits, i + 1 - start);
            }
        }
        if next > 32767 {
            return None;
        }
        acc = next;
        i += 1;
    }
    assert(digits.take(n - start) == digits);
    if negative && acc > 0 {
        return None;
    }
    Some(acc as i16)
}

/// The views of the string slices in `lines`.
pub open spec fn views_of(lines: Seq<&str>) -> Seq<Seq<char>> {
    lines.map_values(|l: &str| l@)
}

/// Cuts `text` into its lines.
pub fn split_lines<'a>(text: &'a str) -> (lines: Vec<&'a str>)
    ensures
        views_of(lines@) == lines_of(text@),
{
    let chars = chars_of(text);
    let n = chars.len();
    let mut lines: Vec<&'a str> = Vec::new();
    let mut pos: usize = 0;
    assert(text@.skip(0) == text@);
    while pos < n
        invariant
            chars@ == text@,
            n == chars.len(),
            pos <= n,
            views_of(lines@) + lines_of(text@.skip(pos as int)) == lines_of(text@),
        decreases n - pos,
    {
        let k = find_char_from(&chars, '\n', pos);
        let ghost rest = text@.skip(pos as int);
        let ghost before = lines@;
        if k < n {
            let end = if k > pos && chars[k - 1] == '\r' {
                k - 1
            } else {
                k
            };
            let line = text.substring_char(pos, end);
            lines.push(line);
            proof {
                assert(rest.take(k - pos) == text@.subrange(pos as int, k as int));
                assert(rest.skip(k - pos + 1) == text@.skip(k + 1));
                assert(line@ == strip_cr(rest.take(k - pos)));
                assert(views_of(lines@) == views_of(before) + seq![line@]);
            }
            pos = k + 1;
        } else {
            let line = text.substring_char(pos, n);
            lines.push(line);
            proof {
                assert(line@ == rest);
                assert(views_of(lines@) == views_of(before) + seq![line@]);
                assert(text@.skip(n as int).len() == 0);
            }
            pos = n;
        }
    }
    assert(text@.skip(pos as int).len() == 0);
    lines
}

/// The ASCII digit that stands for `d`, a number from 0 to 9.
pub open spec fn digit_char(d: int) -> char {
    ('0' as int + d) as char
}

/// The digits that write `n` in base ten, without leading zeros; `n` must
/// not be negative.
pub open spec fn decimal_text(n: int) -> Seq<char>
    recommends
        n >= 0,
    decreases n,
{
    if n < 10 {
        seq![digit_char(n)]
    } else {
        decimal_text(n / 10).push(digit_char(n % 10))
    }
}

/// The text that writes the integer `n`: a minus sign where it is negative,
/// then its digits.
pub open spec fn integer_text(n: int) -> Seq<char> {
    if n < 0 {
        seq!['-'] + decimal_text(-n)
    } else {
        decimal_text(n)
    }
}

/// Reading the digits that write a number gives the number back.
pub proof fn lemma_decimal_round_trip(n: int)
    requires
        0 <= n,
    ensures
        decimal_text(n).len() > 0,
        all_digits(decimal_text(n)),
        decimal_value(decimal_text(n)) == n,
    decreases n,
{
    if n < 10 {
        let t = decimal_text(n);
        assert(t.drop_last().len() == 0);
        assert(is_digit(t[0]));
        reveal_with_fuel(decimal_value, 2);
    } else {
        lemma_decimal_round_trip(n / 10);
        let front = decimal_text(n / 10);
        let t = decimal_text(n);
        assert(t.drop_last() == front);
        assert(is_digit(t.last()));
        assert forall|i: int| 0 <= i < t.len() implies is_digit(#[trigger] t[i]) by {
            if i < front.len() {
                assert(t[i] == front[i]);
            }
        }
    }
}

/// Reading the text that writes a count gives the count back.
pub proof fn lemma_count_round_trip(n: i16)
    requires
        0 <= n,
    ensures
        count_of(integer_text(n as int)) == Some(n),
{
    let t = decimal_text(n as int);
    lemma_decimal_round_trip(n as int);
    assert(is_digit(t[0]));
}

/// The one-character text of the digit `d`.
fn digit_str(d: u128) -> (res: &'static str)
    requires
        d < 10,
    ensures
        res@ == seq![digit_char(d as int)],
{
    proof {
        reveal_strlit("0");
        reveal_strlit("1");
        reveal_strlit("2");
        reveal_strlit("3");
        reveal_strlit("4");
        reveal_strlit("5");
        reveal_strlit("6");
        reveal_strlit("7");
        reveal_strlit("8");
        reveal_strlit("9");
    }
    let res = if d == 0 {
        "0"
    } else if d == 1 {
        "1"
    } else if d == 2 {
        "2"
    } else if d == 3 {
        "3"
    } else if d == 4 {
        "4"
    } else if d == 5 {
        "5"
    } else if d == 6 {
        "6"
    } else if d == 7 {
        "7"
    } else if d == 8 {
        "8"
    } else {
        "9"
    };
    assert(res@ =~= seq![digit_char(d as int)]);
    res
}

/// Writes `v` in base ten.
pub fn number_text(v: u128) -> (res: String)
    ensures
        res@ == decimal_text(v as int),
    decreases v,
{
    if v < 10 {
        String::from_str(digit_str(v))
    } else {
        let mut res = number_text(v / 10);
        res.append(digit_str(v % 10));
        res
    }
}

/// Writes `n` in base ten, with a minus sign where it is negative.
pub fn count_text(n: i16) -> (res: String)
    ensures
        res@ == integer_text(n as int),
{
    let v: i32 = n as i32;
    if v < 0 {
        proof {
            reveal_strlit("-");
        }
        let digits = number_text((-v) as u128);
        let res = String::from_str("-").concat(digits.as_str());
        assert(res@ =~= seq!['-'] + decimal_text(-(n as int)));
        res
    } else {
        number_text(v as u128)
    }
}

} // verus!
