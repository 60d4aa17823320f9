//! Text as sequences of characters: searching, trimming, reading and writing numbers.

use vstd::prelude::*;
use vstd::string::StringExecFns;

verus! {

/// The characters of `s`, in order.
pub fn chars_of(s: &str) -> (chars: Vec<char>)
    ensures
        chars@ == s@,
{
    let mut chars: Vec<char> = Vec::new();
    for c in it: s.chars()
        invariant
            it.seq() == s@,
            chars@ == s@.take(it.index() as int),
    {
        chars.push(c);
    }
    chars
}

/// `i` is where `c` first stands in `s`.
pub open spec fn is_first(s: Seq<char>, c: char, i: int) -> bool {
    &&& 0 <= i < s.len()
    &&& s[i] == c
    &&& forall|j: int| 0 <= j < i ==> s[j] != c
}

/// The first place of `c` in `s`, or `None` where `s` does not hold it.
pub fn find_char(s: &[char], c: char) -> (at: Option<usize>)
    ensures
        match at {
            Some(i) => is_first(s@, c, i as int),
            None => !s@.contains(c),
        },
{
    let mut i: usize = 0;
    while i < s.len()
        invariant
            i <= s@.len(),
            forall|j: int| 0 <= j < i ==> s@[j] != c,
        decreases s@.len() - i,
    {
        if s[i] == c {
            return Some(i);
        }
        i = i + 1;
    }
    None
}

/// `i` is where `c` last stands in `s`.
pub open spec fn is_last(s: Seq<char>, c: char, i: int) -> bool {
    &&& 0 <= i < s.len()
    &&& s[i] == c
    &&& forall|j: int| i < j < s.len() ==> s[j] != c
}

/// The last place of `c` in `s`, or `None` where `s` does not hold it.
pub fn rfind_char(s: &[char], c: char) -> (at: Option<usize>)
    ensures
        match at {
            Some(i) => is_last(s@, c, i as int),
            None => !s@.contains(c),
        },
{
    let mut i: usize = s.len();
    while i > 0
        invariant
            i <= s@.len(),
            forall|j: int| i <= j < s@.len() ==> s@[j] != c,
        decreases i,
    {
        i = i - 1;
        if s[i] == c {
            return Some(i);
        }
    }
    None
}

/// The value of `c` as a digit, letters counting on from ten in either case; 16 where `c` is no
/// hexadecimal digit.
pub open spec fn digit_value(c: char) -> nat {
    if '0' <= c <= '9' {
        (c as int - '0' as int) as nat
    } else if 'a' <= c <= 'f' {
        (c as int - 'a' as int + 10) as nat
    } else if 'A' <= c <= 'F' {
        (c as int - 'A' as int + 10) as nat
    } else {
        16
    }
}

/// `s` is a nonempty run of digits of base `radix`.
pub open spec fn is_numeral(s: Seq<char>, radix: nat) -> bool {
    &&& s.len() > 0
    &&& forall|i: int| 0 <= i < s.len() ==> digit_value(#[trigger] s[i]) < radix
}

/// The number that the digits `s` write in base `radix`.
pub open spec fn numeral_value(s: Seq<char>, radix: nat) -> nat
    decreases s.len(),
{
    if s.len() == 0 {
        0
    } else {
        numeral_value(s.drop_last(), radix) * radix + digit_value(s.last())
    }
}

/// The number that `s` writes in base `radix`, if it is a numeral of at most `max`.
pub open spec fn numeral_within(s: Seq<char>, radix: nat, max: nat) -> Option<nat> {
    if is_numeral(s, radix) && numeral_value(s, radix) <= max {
        Some(numeral_value(s, radix))
    } else {
        None
    }
}

/// Further digits never make a numeral smaller.
proof fn lemma_prefix_value_is_no_larger(s: Seq<char>, k: int, radix: nat)
    requires
        0 <= k <= s.len(),
        radix >= 1,
    ensures
        numeral_value(s.take(k), radix) <= numeral_value(s, radix),
    decreases s.len(),
{
    if k == s.len() {
        assert(s.take(k) =~= s);
    } else {
        lemma_prefix_value_is_no_larger(s.drop_last(), k, radix);
        assert(s.drop_last().take(k) =~= s.take(k));
        let shorter: nat = numeral_value(s.drop_last(), radix);
        assert(shorter * radix >= shorter) by (nonlinear_arith)
            requires
                radix >= 1,
        ;
    }
}

fn digit(c: char) -> (d: u64)
    ensures
        d == digit_value(c),
{
    if '0' <= c && c <= '9' {
        c as u64 - '0' as u64
    } else if 'a' <= c && c <= 'f' {
        c as u64 - 'a' as u64 + 10
    } else if 'A' <= c && c <= 'F' {
        c as u64 - 'A' as u64 + 10
    } else {
        16
    }
}

/// Reads the whole of `s` as digits of base `radix`, up to `max`.
pub fn parse_numeral(s: &[char], radix: u64, max: u64) -> (n: Option<u64>)
    requires
        1 <= radix <= 16,
    ensures
        match n {
            Some(v) => numeral_within(s@, radix as nat, max as nat) == Some(v as nat),
            None => numeral_within(s@, radix as nat, max as nat) is None,
        },
{
    if s.len() == 0 {
        return None;
    }
    let mut value: u64 = 0;
    let mut i: usize = 0;
    assert(s@.take(0) =~= Seq::<char>::empty());
    while i < s.len()
        invariant
            1 <= radix <= 16,
            i <= s@.len(),
            forall|j: int| 0 <= j < i ==> digit_value(#[trigger] s@[j]) < radix,
            value == numeral_value(s@.take(i as int), radix as nat),
        decreases s@.len() - i,
    {
        let d: u64 = digit(s[i]);
        if d >= radix {
            assert(!is_numeral(s@, radix as nat));
            return None;
        }
        let ghost longer = s@.take(i + 1);
        proof {
            assert(longer.drop_last() =~= s@.take(i as int));
            assert(longer.last() == s@[i as int]);
            lemma_prefix_value_is_no_larger(s@, i + 1, radix as nat);
        }
        match value.checked_mul(radix) {
            Some(scaled) => match scaled.checked_add(d) {
                Some(next) => {
                    value = next;
                },
                None => {
                    return None;
                },
            },
            None => {
                return None;
            },
        }
        i = i + 1;
    }
    assert(s@.take(i as int) =~= s@);
    if value <= max {
        Some(value)
    } else {
        None
    }
}

/// What `str::parse` makes of `s` for a `u32`: one `+` may stand before the digits.
pub open spec fn u32_of(s: Seq<char>) -> Option<nat> {
    numeral_within(
        if s.len() > 0 && s[0] == '+' {
            s.drop_first()
        } else {
            s
        },
        10,
        u32::MAX as nat,
    )
}

/// Reads `s` as a `u32`: decimal digits with at most one `+` before them, and nothing else.
pub fn parse_u32(s: &[char]) -> (n: Option<u32>)
    ensures
        match n {
            Some(v) => u32_of(s@) == Some(v as nat),
            None => u32_of(s@) is None,
        },
{
    let from: usize = if s.len() > 0 && s[0] == '+' {
        1
    } else {
        0
    };
    let digits: &[char] = vstd::slice::slice_subrange(s, from, s.len());
    assert(digits@ =~= if s@.len() > 0 && s@[0] == '+' {
        s@.drop_first()
    } else {
        s@
    });
    match parse_numeral(digits, 10, u32::MAX as u64) {
        Some(v) => Some(v as u32),
        None => None,
    }
}

/// The character that writes the digit `d`.
pub open spec fn decimal_digit(d: nat) -> char {
    ('0' as int + d) as char
}

/// `n` in decimal, without leading zeros.
pub open spec fn decimal_text(n: nat) -> Seq<char>
    decreases n,
{
    if n < 10 {
        seq![decimal_digit(n)]
    } else {
        decimal_text(n / 10).push(decimal_digit(n % 10))
    }
}

fn digit_text(d: u64) -> (text: &'static str)
    requires
        d < 10,
    ensures
        text@ == seq![decimal_digit(d as nat)],
{
    proof {
        reveal_strlit("0");
        reveal_strlit("1");
        reveal_strlit("2");
        reveal_strlit("3");
        reveal_strlit("4");
        reveal_strlit("5");
        reveal_strlit("6");
        reveal_strlit("7");
        reveal_strlit("8");
        reveal_strlit("9");
    }
    if d == 0 {
        "0"
    } else if d == 1 {
        "1"
    } else if d == 2 {
        "2"
    } else if d == 3 {
        "3"
    } else if d == 4 {
        "4"
    } else if d == 5 {
        "5"
    } else if d == 6 {
        "6"
    } else if d == 7 {
        "7"
    } else if d == 8 {
        "8"
    } else {
        "9"
    }
}

/// Writes `n` in decimal.
pub fn decimal(n: u64) -> (text: String)
    ensures
        text@ == decimal_text(n as nat),
    decreases n,
{
    if n < 10 {
        digit_text(n).to_owned()
    } else {
        let mut text: String = decimal(n / 10);
        text.append(digit_text(n % 10));
        text
    }
}

/// `c` has the Unicode property White_Space.
pub open spec fn is_white_space(c: char) -> bool {
    ||| '\u{9}' <= c <= '\u{d}'
    ||| c == ' '
    ||| c == '\u{85}'
    ||| c == '\u{a0}'
    ||| c == '\u{1680}'
    ||| '\u{2000}' <= c <= '\u{200a}'
    ||| c == '\u{2028}'
    ||| c == '\u{2029}'
    ||| c == '\u{202f}'
    ||| c == '\u{205f}'
    ||| c == '\u{3000}'
}

fn white_space(c: char) -> (white: bool)
    ensures
        white == is_white_space(c),
{
    ('\u{9}' <= c && c <= '\u{d}') || c == ' ' || c == '\u{85}' || c == '\u{a0}' || c == '\u{1680}'
        || ('\u{2000}' <= c && c <= '\u{200a}') || c == '\u{2028}' || c == '\u{2029}' || c
        == '\u{202f}' || c == '\u{205f}' || c == '\u{3000}'
}

/// `s` without the white space before it.
pub open spec fn trimmed_start(s: Seq<char>) -> Seq<char>
    decreases s.len(),
{
    if s.len() > 0 && is_white_space(s[0]) {
        trimmed_start(s.drop_first())
    } else {
        s
    }
}

/// `s` without the white space after it.
pub open spec fn trimmed_end(s: Seq<char>) -> Seq<char>
    decreases s.len(),
{
    if s.len() > 0 && is_white_space(s.last()) {
        trimmed_end(s.drop_last())
    } else {
        s
    }
}

/// `s` without the white space around it.
pub open spec fn trimmed(s: Seq<char>) -> Seq<char> {
    trimmed_end(trimmed_start(s))
}

/// Where `s` starts and ends once the white space around it is taken away.
pub fn trim_bounds(s: &[char]) -> (bounds: (usize, usize))
    ensures
        bounds.0 <= bounds.1 <= s@.len(),
        s@.subrange(bounds.0 as int, bounds.1 as int) == trimmed(s@),
{
    let len: usize = s.len();
    let mut from: usize = 0;
    assert(s@.skip(0) =~= s@);
    while from < len && white_space(s[from])
        invariant
            len == s@.len(),
            from <= len,
            trimmed_start(s@) == trimmed_start(s@.skip(from as int)),
        decreases len - from,
    {
        assert(s@.skip(from as int).drop_first() =~= s@.skip(from + 1));
        from = from + 1;
    }
    assert(trimmed_start(s@) == s@.skip(from as int));
    let mut to: usize = len;
    assert(s@.subrange(from as int, len as int) =~= s@.skip(from as int));
    while to > from && white_space(s[to - 1])
        invariant
            len == s@.len(),
            from <= to <= len,
            trimmed(s@) == trimmed_end(s@.subrange(from as int, to as int)),
        decreases to - from,
    {
        assert(s@.subrange(from as int, to as int).drop_last() =~= s@.subrange(
            from as int,
            to - 1,
        ));
        to = to - 1;
    }
    (from, to)
}

/// Takes away the white space around `s`.
pub fn trim(s: &[char]) -> (inner: &[char])
    ensures
        inner@ == trimmed(s@),
{
    let (from, to): (usize, usize) = trim_bounds(s);
    vstd::slice::slice_subrange(s, from, to)
}

/// `pattern` stands at `i` in `s`.
pub open spec fn stands_at(s: Seq<char>, pattern: Seq<char>, i: int) -> bool {
    &&& 0 <= i
    &&& i + pattern.len() <= s.len()
    &&& s.subrange(i, i + pattern.len()) == pattern
}

/// `i` is where `pattern` first stands in `s`.
pub open spec fn is_first_match(s: Seq<char>, pattern: Seq<char>, i: int) -> bool {
    &&& stands_at(s, pattern, i)
    &&& forall|j: int| 0 <= j < i ==> !stands_at(s, pattern, j)
}

/// Where `pattern` first stands in `s`, if it does.
pub open spec fn first_match(s: Seq<char>, pattern: Seq<char>) -> Option<int> {
    if exists|i: int| is_first_match(s, pattern, i) {
        Some(choose|i: int| is_first_match(s, pattern, i))
    } else {
        None
    }
}

fn matches_at(s: &[char], pattern: &[char], i: usize) -> (here: bool)
    ensures
        here == stands_at(s@, pattern@, i as int),
{
    let len: usize = s.len();
    let width: usize = pattern.len();
    if i > len || width > len - i {
        return false;
    }
    let mut k: usize = 0;
    while k < width
        invariant
            width == pattern@.len(),
            len == s@.len(),
            i <= len,
            width <= len - i,
            k <= width,
            forall|j: int| 0 <= j < k ==> s@[i + j] == pattern@[j],
        decreases width - k,
    {
        if s[i + k] != pattern[k] {
            assert(s@.subrange(i as int, i + width)[k as int] != pattern@[k as int]);
            return false;
        }
        k = k + 1;
    }
    assert(s@.subrange(i as int, i + width) =~= pattern@);
    true
}

/// Finds where `pattern` first stands in `s`.
pub fn find_text(s: &[char], pattern: &str) -> (at: Option<usize>)
    ensures
        match at {
            Some(i) => first_match(s@, pattern@) == Some(i as int) && i + pattern@.len()
                <= s@.len(),
            None => first_match(s@, pattern@) is None,
        },
{
    let wanted: Vec<char> = chars_of(pattern);
    let len: usize = s.len();
    let mut i: usize = 0;
    while i < len
        invariant
            len == s@.len(),
            i <= len,
            wanted@ == pattern@,
            forall|j: int| 0 <= j < i ==> !stands_at(s@, pattern@, j),
        decreases len - i,
    {
        if matches_at(s, wanted.as_slice(), i) {
            proof {
                lemma_first_match(s@, pattern@, i as int);
            }
            return Some(i);
        }
        i = i + 1;
    }
    if matches_at(s, wanted.as_slice(), i) {
        proof {
            lemma_first_match(s@, pattern@, i as int);
        }
        Some(i)
    } else {
        None
    }
}

proof fn lemma_first_match(s: Seq<char>, pattern: Seq<char>, i: int)
    requires
        is_first_match(s, pattern, i),
    ensures
        first_match(s, pattern) == Some(i),
{
    let j = choose|j: int| is_first_match(s, pattern, j);
    assert(is_first_match(s, pattern, j));
    assert(i == j);
}

/// Tells whether `s` starts with `pattern`.
pub fn starts_with(s: &[char], pattern: &str) -> (starts: bool)
    ensures
        starts == stands_at(s@, pattern@, 0),
{
    let wanted: Vec<char> = chars_of(pattern);
    matches_at(s, wanted.as_slice(), 0)
}

/// How far the first line of `s` reaches.
pub open spec fn line_end(s: Seq<char>) -> nat
    decreases s.len(),
{
    if s.len() == 0 || s[0] == '\n' {
        0
    } else {
        1 + line_end(s.drop_first())
    }
}

/// The lines of `s`, without their line feeds. A line feed at the very end starts no line, and a
/// carriage return is part of its line.
pub open spec fn lines(s: Seq<char>) -> Seq<Seq<char>>
    decreases s.len(),
{
    if s.len() == 0 {
        Seq::empty()
    } else {
        let end = line_end(s) as int;
        seq![s.take(end)] + if end < s.len() {
            lines(s.skip(end + 1))
        } else {
            Seq::empty()
        }
    }
}

/// The first line reaches to the first line feed, or to the end.
proof fn lemma_line_end(s: Seq<char>, i: int)
    requires
        0 <= i <= s.len(),
        forall|j: int| 0 <= j < i ==> s[j] != '\n',
        i < s.len() ==> s[i] == '\n',
    ensures
        line_end(s) == i,
    decreases s.len(),
{
    if s.len() > 0 && i > 0 {
        assert forall|j: int| 0 <= j < i - 1 implies s.drop_first()[j] != '\n' by {
            assert(s[j + 1] != '\n');
        }
        lemma_line_end(s.drop_first(), i - 1);
    }
}

/// The lines of `s`, each as its characters.
pub open spec fn line_views(found: Seq<Vec<char>>) -> Seq<Seq<char>> {
    Seq::new(found.len(), |i: int| found[i]@)
}

/// Cuts `s` into lines.
pub fn split_lines(s: &[char]) -> (found: Vec<Vec<char>>)
    ensures
        line_views(found@) == lines(s@),
{
    let len: usize = s.len();
    let mut found: Vec<Vec<char>> = Vec::new();
    let mut at: usize = 0;
    assert(s@.skip(0) =~= s@);
    assert(line_views(found@) + lines(s@) =~= lines(s@));
    while at < len
        invariant
            len == s@.len(),
            at <= len,
            lines(s@) == line_views(found@) + lines(s@.skip(at as int)),
        decreases len - at,
    {
        let ghost before = line_views(found@);
        let rest: &[char] = vstd::slice::slice_subrange(s, at, len);
        assert(rest@ =~= s@.skip(at as int));
        let end: usize = match find_char(rest, '\n') {
            Some(i) => i,
            None => rest.len(),
        };
        proof {
            if end == rest@.len() {
                assert forall|j: int| 0 <= j < end implies rest@[j] != '\n' by {
                    assert(rest@.contains(rest@[j]));
                }
            }
            lemma_line_end(rest@, end as int);
        }
        let line: &[char] = vstd::slice::slice_subrange(rest, 0, end);
        assert(line@ =~= rest@.take(end as int));
        found.push(vstd::slice::slice_to_vec(line));
        assert(line_views(found@) =~= before.push(rest@.take(end as int)));
        if end < len - at {
            assert(rest@.skip(end + 1) =~= s@.skip(at + end + 1));
            at = at + end + 1;
        } else {
            assert(s@.skip(len as int) =~= Seq::<char>::empty());
            at = len;
        }
        assert(lines(s@) =~= line_views(found@) + lines(s@.skip(at as int)));
    }
    assert(s@.skip(at as int) =~= Seq::<char>::empty());
    assert(line_views(found@) + lines(s@.skip(at as int)) =~= line_views(found@));
    found
}

/// Writes `n` in decimal with at least two digits.
pub open spec fn two_digit_text(n: nat) -> Seq<char> {
    if n < 10 {
        "0"@ + decimal_text(n)
    } else {
        decimal_text(n)
    }
}

/// Writes `n` in decimal with at least two digits.
pub fn two_digits(n: u64) -> (text: String)
    ensures
        text@ == two_digit_text(n as nat),
{
    if n < 10 {
        let mut text: String = "0".to_owned();
        text.append(decimal(n).as_str());
        text
    } else {
        decimal(n)
    }
}

} // verus!
