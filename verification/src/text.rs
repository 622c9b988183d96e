//! Text primitives on sequences of characters: lines, prefixes, trimming and
//! searching, each with an executable form on `&str`.

use vstd::prelude::*;
use vstd::string::*;
use crate::seqs::{lemma_position, position};

verus! {

/// The characters that carry the Unicode property `White_Space`.
pub open spec fn is_whitespace(c: char) -> bool {
    let n = c as u32;
    ||| 0x09 <= n <= 0x0d
    ||| n == 0x20
    ||| n == 0x85
    ||| n == 0xa0
    ||| n == 0x1680
    ||| 0x2000 <= n <= 0x200a
    ||| n == 0x2028
    ||| n == 0x2029
    ||| n == 0x202f
    ||| n == 0x205f
    ||| n == 0x3000
}

/// The test that a search for the character `c` applies.
pub open spec fn is_char(c: char) -> spec_fn(char) -> bool {
    |x: char| x == c
}

/// The number of characters of `s` that stand before its first `c`, and the
/// length of `s` where it holds no `c`.
pub open spec fn offset_of(s: Seq<char>, c: char) -> nat {
    position(s, is_char(c))
}

/// What ends a line.
pub open spec fn line_break() -> Seq<char> {
    "\n"@
}

/// The first line of `s` without its terminator. A line ends at `\n`; a `\r`
/// directly before that `\n` belongs to the terminator.
pub open spec fn first_line(s: Seq<char>) -> Seq<char> {
    let n = offset_of(s, '\n') as int;
    if n < s.len() && n > 0 && s[n - 1] == '\r' {
        s.take(n - 1)
    } else {
        s.take(n)
    }
}

/// What follows the terminator of the first line of `s`.
pub open spec fn after_first_line(s: Seq<char>) -> Seq<char> {
    let n = offset_of(s, '\n') as int;
    if n < s.len() {
        s.skip(n + 1)
    } else {
        Seq::empty()
    }
}

/// `s` without its leading white space.
pub open spec fn trim_start(s: Seq<char>) -> Seq<char>
    decreases s.len(),
{
    if s.len() > 0 && is_whitespace(s[0]) {
        trim_start(s.drop_first())
    } else {
        s
    }
}

/// `s` without its trailing white space.
pub open spec fn trim_end(s: Seq<char>) -> Seq<char>
    decreases s.len(),
{
    if s.len() > 0 && is_whitespace(s.last()) {
        trim_end(s.drop_last())
    } else {
        s
    }
}

/// `s` without white space at either end.
pub open spec fn trim(s: Seq<char>) -> Seq<char> {
    trim_end(trim_start(s))
}

/// Leading white space is exactly what `trim_start` takes off.
pub proof fn lemma_trim_start(s: Seq<char>, k: int)
    requires
        0 <= k <= s.len(),
        forall|j: int| 0 <= j < k ==> is_whitespace(s[j]),
        k == s.len() || !is_whitespace(s[k]),
    ensures
        trim_start(s) == s.skip(k),
    decreases k,
{
    if k > 0 {
        let t = s.drop_first();
        assert(forall|j: int| 0 <= j < k - 1 ==> t[j] == s[j + 1]);
        lemma_trim_start(t, k - 1);
        assert(t.skip(k - 1) =~= s.skip(k));
    } else {
        assert(s.skip(0) =~= s);
    }
}

/// Trailing white space is exactly what `trim_end` takes off.
pub proof fn lemma_trim_end(s: Seq<char>, k: int)
    requires
        0 <= k <= s.len(),
        forall|j: int| k <= j < s.len() ==> is_whitespace(s[j]),
        k == 0 || !is_whitespace(s[k - 1]),
    ensures
        trim_end(s) == s.take(k),
    decreases s.len() - k,
{
    if k < s.len() {
        let t = s.drop_last();
        lemma_trim_end(t, k);
        assert(t.take(k) =~= s.take(k));
    } else {
        assert(s.take(k) =~= s);
    }
}

/// The characters of `s`, one by one.
pub fn chars_of(s: &str) -> (r: Vec<char>)
    ensures
        r@ == s@,
{
    let mut out: Vec<char> = Vec::new();
    for c in it: s.chars()
        invariant
            out@ == it.seq().take(it.index()),
    {
        out.push(c);
    }
    out
}

/// Whether two texts hold the same characters.
pub fn text_eq(a: &str, b: &str) -> (r: bool)
    ensures
        r == (a@ == b@),
{
    let x: String = a.to_owned();
    let y: String = b.to_owned();
    x == y
}

/// Whether `c` is white space.
pub fn is_whitespace_char(c: char) -> (r: bool)
    ensures
        r == is_whitespace(c),
{
    let n: u32 = c as u32;
    (0x09 <= n && n <= 0x0d) || n == 0x20 || n == 0x85 || n == 0xa0 || n == 0x1680 || (0x2000 <= n
        && n <= 0x200a) || n == 0x2028 || n == 0x2029 || n == 0x202f || n == 0x205f || n == 0x3000
}

/// Whether `pat` stands in `text` at position `at`. Nothing stands behind
/// the end of `text`.
pub fn matches_at(text: &Vec<char>, at: usize, pat: &Vec<char>) -> (r: bool)
    ensures
        r == (at <= text.len() && pat@.is_prefix_of(text@.skip(at as int))),
{
    let n: usize = text.len();
    let m: usize = pat.len();
    if at > n || n - at < m {
        return false;
    }
    let mut i: usize = 0;
    while i < m
        invariant
            i <= m,
            at + m <= n,
            n == text.len(),
            m == pat.len(),
            forall|j: int| 0 <= j < i ==> pat[j] == text[at + j],
        decreases m - i,
    {
        if pat[i] != text[at + i] {
            assert(text@.skip(at as int)[i as int] == text[at + i]);
            return false;
        }
        i += 1;
    }
    assert(pat@ =~= text@.skip(at as int).subrange(0, m as int));
    true
}

/// Whether `s` begins with `prefix`.
pub fn has_prefix(s: &str, prefix: &str) -> (r: bool)
    ensures
        r == prefix@.is_prefix_of(s@),
{
    let text: Vec<char> = chars_of(s);
    let pat: Vec<char> = chars_of(prefix);
    assert(text@.skip(0) =~= text@);
    matches_at(&text, 0, &pat)
}

/// `s` without `prefix` at its start, where it begins with it.
pub fn strip_prefix<'a>(s: &'a str, prefix: &str) -> (r: Option<&'a str>)
    ensures
        match r {
            Some(rest) => prefix@.is_prefix_of(s@) && rest@ == s@.skip(prefix@.len() as int),
            None => !prefix@.is_prefix_of(s@),
        },
{
    let text: Vec<char> = chars_of(s);
    let pat: Vec<char> = chars_of(prefix);
    assert(text@.skip(0) =~= text@);
    if matches_at(&text, 0, &pat) {
        Some(s.substring_char(pat.len(), text.len()))
    } else {
        None
    }
}

/// The position of the first `c` in `s`, counted in characters.
pub fn find_char(s: &str, c: char) -> (r: Option<usize>)
    ensures
        match r {
            Some(k) => k == offset_of(s@, c) && k < s@.len(),
            None => offset_of(s@, c) == s@.len(),
        },
{
    let text: Vec<char> = chars_of(s);
    let n: usize = text.len();
    let mut i: usize = 0;
    while i < n && text[i] != c
        invariant
            i <= n,
            n == text.len(),
            forall|j: int| 0 <= j < i ==> text[j] != c,
        decreases n - i,
    {
        i += 1;
    }
    proof {
        lemma_position(text@, is_char(c), i as int);
    }
    if i < n {
        Some(i)
    } else {
        None
    }
}

/// The first line of `s` and what follows its terminator.
pub fn split_first_line<'a>(s: &'a str) -> (r: (&'a str, &'a str))
    ensures
        r.0@ == first_line(s@),
        r.1@ == after_first_line(s@),
{
    let text: Vec<char> = chars_of(s);
    let n: usize = text.len();
    let mut i: usize = 0;
    while i < n && text[i] != '\n'
        invariant
            i <= n,
            n == text.len(),
            forall|j: int| 0 <= j < i ==> text[j] != '\n',
        decreases n - i,
    {
        i += 1;
    }
    proof {
        lemma_position(text@, is_char('\n'), i as int);
    }
    let end: usize = if i < n && i > 0 && text[i - 1] == '\r' {
        i - 1
    } else {
        i
    };
    let line: &str = s.substring_char(0, end);
    let rest: &str = if i < n {
        s.substring_char(i + 1, n)
    } else {
        s.substring_char(n, n)
    };
    (line, rest)
}

/// `s` without white space at either end.
pub fn trim_text<'a>(s: &'a str) -> (r: &'a str)
    ensures
        r@ == trim(s@),
{
    let text: Vec<char> = chars_of(s);
    let n: usize = text.len();
    let mut from: usize = 0;
    while from < n && is_whitespace_char(text[from])
        invariant
            from <= n,
            n == text.len(),
            forall|j: int| 0 <= j < from ==> is_whitespace(text[j]),
        decreases n - from,
    {
        from += 1;
    }
    let mut to: usize = n;
    while to > from && is_whitespace_char(text[to - 1])
        invariant
            from <= to <= n,
            n == text.len(),
            forall|j: int| to <= j < n ==> is_whitespace(text[j]),
        decreases to,
    {
        to -= 1;
    }
    proof {
        lemma_trim_start(text@, from as int);
        let tail = text@.skip(from as int);
        assert(forall|j: int| 0 <= j < tail.len() ==> tail[j] == text[from + j]);
        lemma_trim_end(tail, to - from);
        assert(tail.take(to - from) =~= text@.subrange(from as int, to as int));
    }
    s.substring_char(from, to)
}

/// The pieces of `s` between the occurrences of `sep`, in order. A text
/// without `sep` is one piece.
pub open spec fn split(s: Seq<char>, sep: char) -> Seq<Seq<char>>
    decreases s.len(),
{
    let k = offset_of(s, sep) as int;
    if k < s.len() {
        seq![s.take(k)] + split(s.skip(k + 1), sep)
    } else {
        seq![s]
    }
}

/// Whether `c` is a decimal digit.
pub open spec fn is_digit(c: char) -> bool {
    '0' <= c <= '9'
}

/// Whether `s` holds decimal digits only.
pub open spec fn all_digits(s: Seq<char>) -> bool {
    forall|i: int| 0 <= i < s.len() ==> is_digit(#[trigger] s[i])
}

/// The number that the digits of `s` denote.
pub open spec fn digits_value(s: Seq<char>) -> nat
    decreases s.len(),
{
    if s.len() == 0 {
        0
    } else {
        digits_value(s.drop_last()) * 10 + (s.last() as nat - '0' as nat) as nat
    }
}

/// The number from 0 to 255 that `s` denotes: `s` is at least one decimal
/// digit, with `+` before the digits or without. Any other text denotes
/// none.
pub open spec fn byte_value(s: Seq<char>) -> Option<u8> {
    let digits = if s.len() > 0 && s[0] == '+' {
        s.skip(1)
    } else {
        s
    };
    if digits.len() > 0 && all_digits(digits) && digits_value(digits) <= 255 {
        Some(digits_value(digits) as u8)
    } else {
        None
    }
}

/// More digits denote no smaller number.
pub proof fn lemma_digits_value_grows(s: Seq<char>, k: int)
    requires
        0 <= k <= s.len(),
        all_digits(s),
    ensures
        digits_value(s.take(k)) <= digits_value(s),
    decreases s.len() - k,
{
    if k < s.len() {
        assert(s.drop_last().take(k) =~= s.take(k));
        assert(forall|i: int| 0 <= i < s.len() - 1 ==> s.drop_last()[i] == s[i]);
        lemma_digits_value_grows(s.drop_last(), k);
    } else {
        assert(s.take(k) =~= s);
    }
}

/// The pieces of `s` between the occurrences of `sep`.
pub fn split_text<'a>(s: &'a str, sep: char) -> (r: Vec<&'a str>)
    ensures
        r.deep_view() == split(s@, sep),
{
    let text: Vec<char> = chars_of(s);
    let n: usize = text.len();
    let mut out: Vec<&'a str> = Vec::new();
    let mut from: usize = 0;
    let mut i: usize = 0;
    assert(text@.skip(0) =~= text@);
    assert(out.deep_view() + split(text@.skip(0), sep) =~= split(text@, sep));
    while i < n
        invariant
            from <= i <= n,
            n == text.len(),
            text@ == s@,
            split(s@, sep) == out.deep_view() + split(text@.skip(from as int), sep),
            forall|j: int| from <= j < i ==> text[j] != sep,
        decreases n - i,
    {
        if text[i] == sep {
            let piece: &'a str = s.substring_char(from, i);
            let ghost before = out.deep_view();
            let ghost tail = text@.skip(from as int);
            proof {
                assert(forall|j: int| 0 <= j < i - from ==> tail[j] == text[from + j]);
                lemma_position(tail, is_char(sep), i - from);
                assert(tail.take(i - from) =~= piece@);
                assert(tail.skip(i - from + 1) =~= text@.skip(i + 1));
            }
            out.push(piece);
            proof {
                assert(out.deep_view() =~= before.push(piece@));
                assert(before + (seq![piece@] + split(text@.skip(i + 1), sep)) =~= before.push(
                    piece@,
                ) + split(text@.skip(i + 1), sep));
            }
            from = i + 1;
        }
        i += 1;
    }
    let piece: &'a str = s.substring_char(from, n);
    let ghost before = out.deep_view();
    let ghost tail = text@.skip(from as int);
    proof {
        assert(forall|j: int| 0 <= j < n - from ==> tail[j] == text[from + j]);
        lemma_position(tail, is_char(sep), n - from);
        assert(tail =~= piece@);
    }
    out.push(piece);
    proof {
        assert(out.deep_view() =~= before.push(piece@));
        assert(before + seq![piece@] =~= before.push(piece@));
    }
    out
}

/// The number from 0 to 255 that `s` denotes.
pub fn parse_byte(s: &str) -> (r: Option<u8>)
    ensures
        r == byte_value(s@),
{
    let text: Vec<char> = chars_of(s);
    let n: usize = text.len();
    let start: usize = if n > 0 && text[0] == '+' {
        1
    } else {
        0
    };
    let ghost digits = text@.skip(start as int);
    assert(text@.skip(0) =~= text@);
    if start == n {
        return None;
    }
    let mut value: u32 = 0;
    let mut i: usize = start;
    assert(digits.take(0) =~= Seq::<char>::empty());
    while i < n
        invariant
            start <= i <= n,
            n == text.len(),
            text@ == s@,
            digits == text@.skip(start as int),
            start == (if n > 0 && text[0] == '+' {
                1usize
            } else {
                0usize
            }),
            all_digits(digits.take(i - start)),
            value == digits_value(digits.take(i - start)),
            value <= 255,
        decreases n - i,
    {
        let c: char = text[i];
        assert(digits[i - start] == c);
        if c < '0' || c > '9' {
            assert(text@.skip(0) =~= text@);
            return None;
        }
        let d: u32 = c as u32 - '0' as u32;
        proof {
            assert(digits.take(i - start + 1).drop_last() =~= digits.take(i - start));
            assert(digits.take(i - start + 1).last() == c);
            assert forall|j: int| 0 <= j < i - start + 1 implies is_digit(
                #[trigger] digits.take(i - start + 1)[j],
            ) by {
                if j < i - start {
                    assert(digits.take(i - start)[j] == digits[j]);
                }
            }
        }
        value = value * 10 + d;
        i += 1;
        assert(value == digits_value(digits.take(i - start)));
        if value > 255 {
            proof {
                assert(text@.skip(0) =~= text@);
                if all_digits(digits) {
                    lemma_digits_value_grows(digits, i - start);
                }
            }
            return None;
        }
    }
    assert(digits.take(n - start) =~= digits);
    Some(value as u8)
}

/// The character of a decimal digit.
pub open spec fn digit_char(d: nat) -> char
    recommends
        d < 10,
{
    if d == 0 {
        '0'
    } else if d == 1 {
        '1'
    } else if d == 2 {
        '2'
    } else if d == 3 {
        '3'
    } else if d == 4 {
        '4'
    } else if d == 5 {
        '5'
    } else if d == 6 {
        '6'
    } else if d == 7 {
        '7'
    } else if d == 8 {
        '8'
    } else {
        '9'
    }
}

/// A number in decimal notation, without leading zeros.
pub open spec fn decimal(n: nat) -> Seq<char>
    decreases n,
{
    if n < 10 {
        seq![digit_char(n)]
    } else {
        decimal(n / 10).push(digit_char(n % 10))
    }
}

/// The text of a decimal digit.
fn digit_text(d: u64) -> (r: &'static str)
    requires
        d < 10,
    ensures
        r@ == seq![digit_char(d as nat)],
{
    proof {
        reveal_strlit("0");
        reveal_strlit("1");
        reveal_strlit("2");
        reveal_strlit("3");
        reveal_strlit("4");
        reveal_strlit("5");
        reveal_strlit("6");
        reveal_strlit("7");
        reveal_strlit("8");
        reveal_strlit("9");
    }
    let r: &'static str = if d == 0 {
        "0"
    } else if d == 1 {
        "1"
    } else if d == 2 {
        "2"
    } else if d == 3 {
        "3"
    } else if d == 4 {
        "4"
    } else if d == 5 {
        "5"
    } else if d == 6 {
        "6"
    } else if d == 7 {
        "7"
    } else if d == 8 {
        "8"
    } else {
        "9"
    };
    assert(r@ =~= seq![digit_char(d as nat)]);
    r
}

/// A number in decimal notation.
pub fn decimal_text(n: u64) -> (r: String)
    ensures
        r@ == decimal(n as nat),
    decreases n,
{
    if n < 10 {
        digit_text(n).to_owned()
    } else {
        let mut out: String = decimal_text(n / 10);
        out.append(digit_text(n % 10));
        assert(out@ =~= decimal((n / 10) as nat).push(digit_char((n % 10) as nat)));
        out
    }
}

} // verus!
