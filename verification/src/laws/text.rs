//! Characters, numerals, white space and lines.

use vstd::arithmetic::power::pow;
use vstd::prelude::*;

use crate::text;
use crate::text::{
    chars_of, decimal, find_char, find_text, parse_numeral, parse_u32, rfind_char, split_lines,
    starts_with, trim, trim_bounds, two_digits,
};

verus! {

/// The value of the character with code `c` as a digit, or `-1`.
pub open spec fn digit_at_code(c: int) -> int {
    if 48 <= c <= 57 {
        c - 48
    } else if 65 <= c <= 70 {
        c - 55
    } else if 97 <= c <= 102 {
        c - 87
    } else {
        -1
    }
}

/// `s` is written in digits of base `radix`, at least one.
pub open spec fn digits(s: Seq<char>, radix: int) -> bool {
    s.len() > 0 && forall|i: int|
        0 <= i < s.len() ==> 0 <= digit_at_code((#[trigger] s[i]) as int) < radix
}

/// The number that `s` writes in base `radix`: each digit times its power of the base.
pub open spec fn number(s: Seq<char>, radix: int) -> int
    decreases s.len(),
{
    if s.len() == 0 {
        0
    } else {
        digit_at_code(s[0] as int) * pow(radix, (s.len() - 1) as nat) + number(
            s.drop_first(),
            radix,
        )
    }
}

proof fn lemma_last_digit(s: Seq<char>, radix: int)
    requires
        s.len() > 0,
    ensures
        number(s, radix) == number(s.drop_last(), radix) * radix + digit_at_code(s.last() as int),
    decreases s.len(),
{
    reveal(pow);
    if s.len() == 1 {
        assert(s.drop_first() =~= Seq::<char>::empty());
        assert(s.drop_last() =~= Seq::<char>::empty());
        assert(digit_at_code(s[0] as int) * 1 == digit_at_code(s[0] as int));
    } else {
        let d = digit_at_code(s[0] as int);
        let p = pow(radix, (s.len() - 2) as nat);
        let rest = s.drop_first();
        lemma_last_digit(rest, radix);
        assert(rest.drop_last() =~= s.drop_last().drop_first());
        assert(rest.last() == s.last());
        assert(pow(radix, (s.len() - 1) as nat) == radix * p);
        let inner = number(rest.drop_last(), radix);
        assert(d * (radix * p) + inner * radix == (d * p + inner) * radix) by (nonlinear_arith);
    }
}

/// The vocabulary of the contracts agrees with the positional reading of numerals.
pub(crate) proof fn lemma_numeral(s: Seq<char>, radix: nat)
    requires
        1 <= radix <= 16,
    ensures
        text::is_numeral(s, radix) == digits(s, radix as int),
        digits(s, radix as int) ==> text::numeral_value(s, radix) == number(s, radix as int),
    decreases s.len(),
{
    if digits(s, radix as int) {
        assert forall|i: int| 0 <= i < s.len() implies text::digit_value(#[trigger] s[i])
            < radix by {
            assert(0 <= digit_at_code(s[i] as int) < radix);
        }
        lemma_last_digit(s, radix as int);
        let head = s.drop_last();
        assert(0 <= digit_at_code(s.last() as int) < radix);
        if head.len() > 0 {
            assert forall|i: int| 0 <= i < head.len() implies 0 <= digit_at_code(
                (#[trigger] head[i]) as int,
            ) < radix by {
                assert(head[i] == s[i]);
            }
            lemma_numeral(head, radix);
        }
        let shorter: int = number(head, radix as int);
        assert(text::numeral_value(head, radix) == shorter);
        assert(text::digit_value(s.last()) == digit_at_code(s.last() as int));
        assert(text::numeral_value(s, radix) == text::numeral_value(head, radix) * radix
            + text::digit_value(s.last()));
        assert(text::numeral_value(head, radix) * radix == shorter * radix) by (nonlinear_arith)
            requires
                text::numeral_value(head, radix) == shorter,
        ;
    }
    if text::is_numeral(s, radix) {
        assert forall|i: int| 0 <= i < s.len() implies 0 <= digit_at_code((#[trigger] s[i]) as int)
            < radix by {
            assert(text::digit_value(s[i]) < radix);
        }
    }
}

/// Reading digits gives the number that they write, by the powers of the base, and succeeds on
/// every text of digits whose number is small enough and on no other.
pub proof fn law_numerals_are_read(s: &[char], radix: u64, max: u64, n: Option<u64>)
    requires
        1 <= radix <= 16,
        call_ensures(parse_numeral, (s, radix, max), n),
    ensures
        n is Some <==> digits(s@, radix as int) && number(s@, radix as int) <= max,
        n matches Some(v) ==> v == number(s@, radix as int),
{
    lemma_numeral(s@, radix as nat);
}

/// Reading a `u32` takes decimal digits, with one plus sign before them or none.
pub proof fn law_u32_is_read(s: &[char], n: Option<u32>)
    requires
        call_ensures(parse_u32, (s,), n),
    ensures
        ({
            let unsigned = if s@.len() > 0 && s@[0] as int == 43 {
                s@.subrange(1, s@.len() as int)
            } else {
                s@
            };
            &&& n is Some <==> digits(unsigned, 10) && number(unsigned, 10) <= 4294967295
            &&& n matches Some(v) ==> v == number(unsigned, 10)
        }),
{
    if s@.len() > 0 {
        assert(s@.subrange(1, s@.len() as int) =~= s@.drop_first());
        lemma_numeral(s@.drop_first(), 10);
    }
    lemma_numeral(s@, 10);
}

/// `shown` writes `n` in decimal, in as few digits as `least` allows.
pub open spec fn writes(shown: Seq<char>, n: int, least: int) -> bool {
    &&& digits(shown, 10)
    &&& number(shown, 10) == n
    &&& shown.len() >= least
    &&& shown.len() > least ==> shown[0] as int != 48
}

pub(crate) proof fn lemma_decimal(n: nat)
    ensures
        writes(text::decimal_text(n), n as int, 1),
        n >= 10 ==> text::decimal_text(n).len() >= 2,
        forall|i: int|
            0 <= i < text::decimal_text(n).len() ==> 48 <= (#[trigger] text::decimal_text(n)[i]) as int
                <= 57,
        n > 0 ==> text::decimal_text(n)[0] as int != 48,
    decreases n,
{
    let s = text::decimal_text(n);
    if n < 10 {
        assert(s =~= seq![text::decimal_digit(n)]);
        assert(s[0] as int == 48 + n);
        lemma_last_digit(s, 10);
        assert(s.drop_last() =~= Seq::<char>::empty());
    } else {
        lemma_decimal(n / 10);
        let head = text::decimal_text(n / 10);
        assert(s.drop_last() =~= head);
        assert(s.last() as int == 48 + n % 10);
        lemma_last_digit(s, 10);
        assert(s[0] == head[0]);
        assert forall|i: int| 0 <= i < s.len() implies 48 <= (#[trigger] s[i]) as int <= 57 by {
            if i < head.len() {
                assert(s[i] == head[i]);
            }
        }
    }
}

/// A number that was written in decimal reads back as itself, and has no leading zero.
pub proof fn law_decimal_reads_back(n: u64, shown: String)
    requires
        call_ensures(decimal, (n,), shown),
    ensures
        writes(shown@, n as int, 1),
{
    lemma_decimal(n as nat);
}

pub(crate) proof fn lemma_two_digits(n: nat)
    ensures
        writes(text::two_digit_text(n), n as int, 2),
{
    lemma_decimal(n);
    reveal_strlit("0");
    let plain = text::decimal_text(n);
    let s = text::two_digit_text(n);
    if n < 10 {
        reveal_with_fuel(text::decimal_text, 2);
        assert(plain.len() == 1);
        assert(s.drop_first() =~= plain);
        assert(s[0] as int == 48);
        assert(0 * pow(10, 1) == 0);
        assert forall|i: int| 0 <= i < s.len() implies 0 <= digit_at_code((#[trigger] s[i]) as int)
            < 10 by {
            if i > 0 {
                assert(s[i] == plain[i - 1]);
            }
        }
    }
}

/// A number that was written with at least two digits reads back as itself, and has a leading zero
/// only where it needs one.
pub proof fn law_two_digits_read_back(n: u64, shown: String)
    requires
        call_ensures(two_digits, (n,), shown),
    ensures
        writes(shown@, n as int, 2),
{
    lemma_two_digits(n as nat);
}

/// The character with code `c` is white space.
pub open spec fn blank_code(c: int) -> bool {
    ||| 9 <= c <= 13
    ||| c == 32
    ||| c == 133
    ||| c == 160
    ||| c == 5760
    ||| 8192 <= c <= 8202
    ||| c == 8232
    ||| c == 8233
    ||| c == 8239
    ||| c == 8287
    ||| c == 12288
}

/// `s[from..to]` is `s` without the white space around it.
pub open spec fn stripped(s: Seq<char>, from: int, to: int) -> bool {
    &&& 0 <= from <= to <= s.len()
    &&& forall|i: int| 0 <= i < from ==> blank_code((#[trigger] s[i]) as int)
    &&& forall|i: int| to <= i < s.len() ==> blank_code((#[trigger] s[i]) as int)
    &&& from < to ==> !blank_code(s[from] as int) && !blank_code(s[to - 1] as int)
}

proof fn lemma_trimmed_start(s: Seq<char>) -> (from: int)
    ensures
        0 <= from <= s.len(),
        text::trimmed_start(s) == s.skip(from),
        forall|i: int| 0 <= i < from ==> blank_code((#[trigger] s[i]) as int),
        from < s.len() ==> !blank_code(s[from] as int),
    decreases s.len(),
{
    if s.len() > 0 && text::is_white_space(s[0]) {
        let f = lemma_trimmed_start(s.drop_first());
        assert(s.drop_first().skip(f) =~= s.skip(f + 1));
        assert forall|i: int| 0 <= i < f + 1 implies blank_code((#[trigger] s[i]) as int) by {
            if i > 0 {
                assert(s[i] == s.drop_first()[i - 1]);
            }
        }
        if f + 1 < s.len() {
            assert(s[f + 1] == s.drop_first()[f]);
        }
        f + 1
    } else {
        assert(s.skip(0) =~= s);
        0
    }
}

proof fn lemma_trimmed_end(s: Seq<char>) -> (to: int)
    ensures
        0 <= to <= s.len(),
        text::trimmed_end(s) == s.take(to),
        forall|i: int| to <= i < s.len() ==> blank_code((#[trigger] s[i]) as int),
        to > 0 ==> !blank_code(s[to - 1] as int),
    decreases s.len(),
{
    if s.len() > 0 && text::is_white_space(s.last()) {
        let t = lemma_trimmed_end(s.drop_last());
        assert(s.drop_last().take(t) =~= s.take(t));
        assert forall|i: int| t <= i < s.len() implies blank_code((#[trigger] s[i]) as int) by {
            if i < s.len() - 1 {
                assert(s[i] == s.drop_last()[i]);
            }
        }
        t
    } else {
        assert(s.take(s.len() as int) =~= s);
        s.len() as int
    }
}

/// What is left after trimming lies between the white space before and after it.
pub(crate) proof fn lemma_trimmed(s: Seq<char>) -> (bounds: (int, int))
    ensures
        stripped(s, bounds.0, bounds.1),
        text::trimmed(s) == s.subrange(bounds.0, bounds.1),
{
    let from = lemma_trimmed_start(s);
    let rest = s.skip(from);
    let t = lemma_trimmed_end(rest);
    assert(rest.take(t) =~= s.subrange(from, from + t));
    assert forall|i: int| from + t <= i < s.len() implies blank_code((#[trigger] s[i]) as int) by {
        assert(s[i] == rest[i - from]);
    }
    if t > 0 {
        assert(rest[t - 1] == s[from + t - 1]);
    }
    (from, from + t)
}

/// Two ways of stripping a text leave the same.
pub(crate) proof fn lemma_stripped_is_unique(s: Seq<char>, from: int, to: int)
    requires
        stripped(s, from, to),
    ensures
        text::trimmed(s) == s.subrange(from, to),
{
    let (f, t) = lemma_trimmed(s);
    if from < to {
        assert(!blank_code(s[from] as int) && !blank_code(s[to - 1] as int));
        assert(f <= from && to <= t);
        assert(!blank_code(s[f] as int) && !blank_code(s[t - 1] as int));
        assert(from <= f && t <= to);
    } else if f < t {
        assert(!blank_code(s[f] as int));
        assert(false);
    } else {
        assert(s.subrange(from, to) =~= s.subrange(f, t));
    }
}

/// Trimming takes away all the white space before and after a text, and nothing else.
pub proof fn law_trim_takes_white_space_away(s: &[char], from: int, to: int, inner: &[char])
    requires
        call_ensures(trim, (s,), inner),
        stripped(s@, from, to),
    ensures
        inner@ == s@.subrange(from, to),
{
    lemma_stripped_is_unique(s@, from, to);
}

/// The bounds of a trimmed text are those between which it lies.
pub proof fn law_trim_bounds_enclose_the_text(s: &[char], bounds: (usize, usize))
    requires
        call_ensures(trim_bounds, (s,), bounds),
    ensures
        bounds.0 <= bounds.1 <= s@.len(),
        bounds.0 < bounds.1 ==> stripped(s@, bounds.0 as int, bounds.1 as int),
        bounds.0 == bounds.1 ==> stripped(s@, 0, 0),
{
    let (from, to) = lemma_trimmed(s@);
    let i = bounds.0 as int;
    let j = bounds.1 as int;
    assert(s@.subrange(i, j) == s@.subrange(from, to));
    assert(s@.subrange(i, j).len() == j - i && s@.subrange(from, to).len() == to - from);
    if i < j {
        let part = s@.subrange(i, j);
        assert(part[0] == s@[i] && part[0] == s@[from]);
        assert(part[j - i - 1] == s@[j - 1] && part[j - i - 1] == s@[to - 1]);
        assert(!blank_code(s@[i] as int) && !blank_code(s@[j - 1] as int));
        assert(from <= i && j <= to);
    } else {
        assert forall|k: int| 0 <= k < s@.len() implies blank_code((#[trigger] s@[k]) as int) by {}
    }
}

/// The characters of a text come in order.
pub proof fn law_chars_are_those_of_the_text(s: &str, chars: Vec<char>)
    requires
        call_ensures(chars_of, (s,), chars),
    ensures
        chars@ == s@,
{
}

/// A character is found where it first stands, if it stands anywhere.
pub proof fn law_find_gives_the_first(s: &[char], c: char, at: Option<usize>)
    requires
        call_ensures(find_char, (s, c), at),
    ensures
        match at {
            Some(i) => i < s@.len() && s@[i as int] == c && forall|j: int|
                0 <= j < i ==> s@[j] != c,
            None => forall|j: int| 0 <= j < s@.len() ==> s@[j] != c,
        },
{
    if at is None {
        assert forall|j: int| 0 <= j < s@.len() implies s@[j] != c by {
            assert(s@.contains(s@[j]));
        }
    }
}

/// A character is found from the end where it last stands, if it stands anywhere.
pub proof fn law_rfind_gives_the_last(s: &[char], c: char, at: Option<usize>)
    requires
        call_ensures(rfind_char, (s, c), at),
    ensures
        match at {
            Some(i) => i < s@.len() && s@[i as int] == c && forall|j: int|
                i < j < s@.len() ==> s@[j] != c,
            None => forall|j: int| 0 <= j < s@.len() ==> s@[j] != c,
        },
{
    if at is None {
        assert forall|j: int| 0 <= j < s@.len() implies s@[j] != c by {
            assert(s@.contains(s@[j]));
        }
    }
}

/// The characters of `pattern` stand in `s` from `i` on.
pub open spec fn occurs(s: Seq<char>, pattern: Seq<char>, i: int) -> bool {
    &&& 0 <= i
    &&& i + pattern.len() <= s.len()
    &&& forall|k: int| 0 <= k < pattern.len() ==> s[i + k] == #[trigger] pattern[k]
}

pub(crate) proof fn lemma_occurs(s: Seq<char>, pattern: Seq<char>, i: int)
    ensures
        occurs(s, pattern, i) == text::stands_at(s, pattern, i),
{
    if occurs(s, pattern, i) {
        assert(s.subrange(i, i + pattern.len()) =~= pattern);
    }
    if text::stands_at(s, pattern, i) {
        assert forall|k: int| 0 <= k < pattern.len() implies s[i + k] == #[trigger] pattern[k] by {
            assert(s.subrange(i, i + pattern.len())[k] == s[i + k]);
        }
    }
}

proof fn lemma_earliest(s: Seq<char>, pattern: Seq<char>, i: int) -> (first: int)
    requires
        occurs(s, pattern, i),
    ensures
        0 <= first <= i,
        text::is_first_match(s, pattern, first),
    decreases i,
{
    lemma_occurs(s, pattern, i);
    if exists|j: int| 0 <= j < i && text::stands_at(s, pattern, j) {
        let j = choose|j: int| 0 <= j < i && text::stands_at(s, pattern, j);
        lemma_occurs(s, pattern, j);
        lemma_earliest(s, pattern, j)
    } else {
        i
    }
}

/// The vocabulary of the contracts finds what occurs first.
pub(crate) proof fn lemma_first_occurrence(s: Seq<char>, pattern: Seq<char>)
    ensures
        match text::first_match(s, pattern) {
            Some(i) => occurs(s, pattern, i) && forall|j: int|
                0 <= j < i ==> !#[trigger] occurs(s, pattern, j),
            None => forall|j: int| !#[trigger] occurs(s, pattern, j),
        },
{
    match text::first_match(s, pattern) {
        Some(i) => {
            assert(text::is_first_match(s, pattern, i));
            lemma_occurs(s, pattern, i);
            assert forall|j: int| 0 <= j < i implies !#[trigger] occurs(s, pattern, j) by {
                lemma_occurs(s, pattern, j);
            }
        },
        None => {
            assert forall|j: int| !#[trigger] occurs(s, pattern, j) by {
                if occurs(s, pattern, j) {
                    let first = lemma_earliest(s, pattern, j);
                    assert(false);
                }
            }
        },
    }
}

/// A text is found where it first occurs, if it occurs anywhere.
pub proof fn law_find_text_gives_the_first(s: &[char], pattern: &str, at: Option<usize>)
    requires
        call_ensures(find_text, (s, pattern), at),
    ensures
        match at {
            Some(i) => occurs(s@, pattern@, i as int) && forall|j: int|
                0 <= j < i ==> !#[trigger] occurs(s@, pattern@, j),
            None => forall|j: int| !#[trigger] occurs(s@, pattern@, j),
        },
{
    lemma_first_occurrence(s@, pattern@);
}

/// A text starts with its first characters, and with nothing else.
pub proof fn law_starts_with_its_first_characters(s: &[char], pattern: &str, starts: bool)
    requires
        call_ensures(starts_with, (s, pattern), starts),
    ensures
        starts == occurs(s@, pattern@, 0),
{
    lemma_occurs(s@, pattern@, 0);
}

/// The lines one after the other, each with a line feed behind it.
pub open spec fn with_line_feeds(lines: Seq<Seq<char>>) -> Seq<char>
    decreases lines.len(),
{
    if lines.len() == 0 {
        Seq::empty()
    } else {
        lines[0].push('\n') + with_line_feeds(lines.drop_first())
    }
}

/// No line holds a line feed, and the lines with their line feeds are the text, to which a line
/// feed was added where it did not end in one.
pub open spec fn are_lines_of(lines: Seq<Seq<char>>, s: Seq<char>) -> bool {
    &&& forall|i: int, j: int|
        0 <= i < lines.len() && 0 <= j < lines[i].len() ==> (#[trigger] lines[i][j]) as int != 10
    &&& with_line_feeds(lines) == if s.len() == 0 || s.last() as int == 10 {
        s
    } else {
        s.push('\n')
    }
}

proof fn lemma_line_end(s: Seq<char>)
    ensures
        text::line_end(s) <= s.len(),
        forall|j: int| 0 <= j < text::line_end(s) ==> (#[trigger] s[j]) as int != 10,
        text::line_end(s) < s.len() ==> s[text::line_end(s) as int] as int == 10,
    decreases s.len(),
{
    if s.len() > 0 && s[0] != '\n' {
        lemma_line_end(s.drop_first());
        assert forall|j: int| 0 <= j < text::line_end(s) implies (#[trigger] s[j]) as int != 10 by {
            if j > 0 {
                assert(s[j] == s.drop_first()[j - 1]);
            }
        }
    }
}

pub(crate) proof fn lemma_lines(s: Seq<char>)
    ensures
        are_lines_of(text::lines(s), s),
    decreases s.len(),
{
    let lines = text::lines(s);
    if s.len() == 0 {
        assert(with_line_feeds(lines) =~= s);
    } else {
        lemma_line_end(s);
        let end = text::line_end(s) as int;
        assert(lines[0] =~= s.take(end));
        if end < s.len() {
            let rest = s.skip(end + 1);
            lemma_lines(rest);
            assert(lines.drop_first() =~= text::lines(rest));
            assert(s.take(end).push('\n') + rest =~= s);
            assert(s.take(end).push('\n') + rest.push('\n') =~= s.push('\n'));
            if rest.len() > 0 {
                assert(rest.last() == s.last());
            } else {
                assert(s.last() == s[end]);
            }
            assert(with_line_feeds(lines) == s.take(end).push('\n') + with_line_feeds(
                text::lines(rest),
            ));
        } else {
            assert(lines.drop_first() =~= Seq::<Seq<char>>::empty());
            assert(s.take(end) =~= s);
            assert(s.push('\n') + Seq::<char>::empty() =~= s.push('\n'));
            assert(s[s.len() - 1] as int != 10);
            assert(with_line_feeds(lines.drop_first()) =~= Seq::<char>::empty());
        }
        assert forall|i: int, j: int| 0 <= i < lines.len() && 0 <= j < lines[i].len() implies (
        #[trigger] lines[i][j]) as int != 10 by {
            if i == 0 {
                assert(lines[0][j] == s[j]);
            } else {
                let later = lines.drop_first();
                assert(lines[i] == later[i - 1]);
                assert(later[i - 1][j] as int != 10);
            }
        }
    }
}

/// A text is cut into lines at its line feeds, and nothing of it is lost.
pub proof fn law_lines_make_up_the_text(s: &[char], found: Vec<Vec<char>>)
    requires
        call_ensures(split_lines, (s,), found),
    ensures
        are_lines_of(Seq::new(found@.len(), |i: int| found@[i]@), s@),
{
    lemma_lines(s@);
    assert(Seq::new(found@.len(), |i: int| found@[i]@) =~= text::line_views(found@));
}

} // verus!
