//! Operations on text, stated over the sequence of characters that a string holds.

use vstd::prelude::*;
use vstd::string::*;

verus! {

// --- Searching ---

/// `pattern` stands in `s` at position `at`.
pub open spec fn occurs_at(s: Seq<char>, pattern: Seq<char>, at: int) -> bool {
    &&& 0 <= at
    &&& at + pattern.len() <= s.len()
    &&& s.subrange(at, at + pattern.len()) == pattern
}

/// `s` begins with `prefix`.
pub open spec fn begins_with(s: Seq<char>, prefix: Seq<char>) -> bool {
    occurs_at(s, prefix, 0)
}

/// `s` ends with `suffix`.
pub open spec fn finishes_with(s: Seq<char>, suffix: Seq<char>) -> bool {
    occurs_at(s, suffix, s.len() - suffix.len())
}

/// `pattern` stands somewhere in `s`.
pub open spec fn mentions(s: Seq<char>, pattern: Seq<char>) -> bool {
    exists|at: int| occurs_at(s, pattern, at)
}

/// `s` without `prefix` where it begins with it, else `s` itself.
pub open spec fn without_prefix(s: Seq<char>, prefix: Seq<char>) -> Seq<char> {
    if begins_with(s, prefix) {
        s.skip(prefix.len() as int)
    } else {
        s
    }
}

/// The characters of a string, one by one.
pub fn to_chars(s: &str) -> (chars: Vec<char>)
    ensures
        chars@ == s@,
{
    let mut chars: Vec<char> = Vec::new();
    for c in it: s.chars()
        invariant
            chars@ == it.seq().take(it.index()),
            it.seq() == s@,
    {
        chars.push(c);
        assert(it.seq().take(it.index() + 1) == it.seq().take(it.index()).push(c));
    }
    assert(s@.take(s@.len() as int) == s@);
    chars
}

fn chars_match_at(s: &Vec<char>, pattern: &Vec<char>, at: usize) -> (found: bool)
    ensures
        found == occurs_at(s@, pattern@, at as int),
{
    if at > s.len() || pattern.len() > s.len() - at {
        return false;
    }
    let mut i: usize = 0;
    while i < pattern.len()
        invariant
            i <= pattern.len(),
            at + pattern.len() <= s.len(),
            forall|j: int| 0 <= j < i ==> s@[at + j] == pattern@[j],
        decreases pattern.len() - i,
    {
        if s[at + i] != pattern[i] {
            assert(s@.subrange(at as int, at + pattern@.len())[i as int] == s@[at + i]);
            return false;
        }
        i = i + 1;
    }
    assert(s@.subrange(at as int, at + pattern@.len()) =~= pattern@);
    true
}

/// Whether two strings hold the same characters.
pub fn same_text(a: &str, b: &str) -> (same: bool)
    ensures
        same == (a@ == b@),
{
    let a_chars = to_chars(a);
    let b_chars = to_chars(b);
    let matching = chars_match_at(&a_chars, &b_chars, 0);
    assert(matching && a@.len() == b@.len() ==> a@.subrange(0, b@.len() as int) == a@);
    assert(a@ == b@ ==> a@.subrange(0, b@.len() as int) == a@);
    a_chars.len() == b_chars.len() && matching
}

pub fn starts_with(s: &str, prefix: &str) -> (found: bool)
    ensures
        found == begins_with(s@, prefix@),
{
    chars_match_at(&to_chars(s), &to_chars(prefix), 0)
}

pub fn ends_with(s: &str, suffix: &str) -> (found: bool)
    ensures
        found == finishes_with(s@, suffix@),
{
    let s_chars = to_chars(s);
    let suffix_chars = to_chars(suffix);
    if suffix_chars.len() > s_chars.len() {
        return false;
    }
    chars_match_at(&s_chars, &suffix_chars, s_chars.len() - suffix_chars.len())
}

pub fn contains(s: &str, pattern: &str) -> (found: bool)
    ensures
        found == mentions(s@, pattern@),
{
    let s_chars = to_chars(s);
    let pattern_chars = to_chars(pattern);
    if pattern_chars.len() > s_chars.len() {
        return false;
    }
    let last: usize = s_chars.len() - pattern_chars.len();
    let mut at: usize = 0;
    while at <= last
        invariant
            s_chars@ == s@,
            pattern_chars@ == pattern@,
            last == s@.len() - pattern@.len(),
            at <= last + 1,
            forall|j: int| 0 <= j < at ==> !occurs_at(s@, pattern@, j),
        decreases last + 1 - at,
    {
        if chars_match_at(&s_chars, &pattern_chars, at) {
            return true;
        }
        if at == last {
            return false;
        }
        at = at + 1;
    }
    false
}

/// The text after `prefix`, or the whole text where it does not begin with it.
pub fn strip_prefix(s: &str, prefix: &str) -> (rest: String)
    ensures
        rest@ == without_prefix(s@, prefix@),
{
    if starts_with(s, prefix) {
        s.substring_char(prefix.unicode_len(), s.unicode_len()).to_owned()
    } else {
        s.to_owned()
    }
}

// --- Case ---

/// What `str::to_lowercase` makes of a text.
pub uninterp spec fn lowercased(s: Seq<char>) -> Seq<char>;

/// The text in lower case, by `str::to_lowercase`. The contract names the result and claims that
/// it depends on the text alone.
#[verifier::external_body]
pub(crate) fn lowercase(s: &str) -> (r: String)
    ensures
        r@ == lowercased(s@),
{
    s.to_lowercase()
}

// --- Bytes ---

/// What `String::from_utf8_lossy` makes of bytes.
pub uninterp spec fn lossy_utf8(bytes: Seq<u8>) -> Seq<char>;

/// The text that bytes encode, by `String::from_utf8_lossy`. The contract names the result, claims
/// that it depends on the bytes alone, and claims that bytes that are valid UTF-8 are the encoding
/// of the result.
#[verifier::external_body]
pub(crate) fn lossy_text(bytes: &Vec<u8>) -> (r: String)
    ensures
        r@ == lossy_utf8(bytes@),
        vstd::utf8::valid_utf8(bytes@) ==> vstd::utf8::encode_utf8(r@) == bytes@,
{
    String::from_utf8_lossy(bytes.as_slice()).into_owned()
}

// --- White space ---

/// The characters with the Unicode property `White_Space`.
pub open spec fn is_white_space(c: char) -> bool {
    ||| '\t' <= c <= '\r'
    ||| c == ' '
    ||| c == '\u{85}'
    ||| c == '\u{A0}'
    ||| c == '\u{1680}'
    ||| '\u{2000}' <= c <= '\u{200A}'
    ||| '\u{2028}' <= c <= '\u{2029}'
    ||| c == '\u{202F}'
    ||| c == '\u{205F}'
    ||| c == '\u{3000}'
}

/// `s` without the white space at its beginning.
pub open spec fn trimmed_start(s: Seq<char>) -> Seq<char>
    decreases s.len(),
{
    if s.len() > 0 && is_white_space(s.first()) {
        trimmed_start(s.drop_first())
    } else {
        s
    }
}

/// `s` without the white space at its end.
pub open spec fn trimmed_end(s: Seq<char>) -> Seq<char>
    decreases s.len(),
{
    if s.len() > 0 && is_white_space(s.last()) {
        trimmed_end(s.drop_last())
    } else {
        s
    }
}

/// `s` without the white space at either end.
pub open spec fn trimmed(s: Seq<char>) -> Seq<char> {
    trimmed_end(trimmed_start(s))
}

fn white_space(c: char) -> (b: bool)
    ensures
        b == is_white_space(c),
{
    ('\t' <= c && c <= '\r') || c == ' ' || c == '\u{85}' || c == '\u{A0}' || c == '\u{1680}'
        || ('\u{2000}' <= c && c <= '\u{200A}') || ('\u{2028}' <= c && c <= '\u{2029}') || c
        == '\u{202F}' || c == '\u{205F}' || c == '\u{3000}'
}

pub fn trim(s: &str) -> (r: String)
    ensures
        r@ == trimmed(s@),
{
    let chars = to_chars(s);
    let mut start: usize = 0;
    assert(s@.skip(0) == s@);
    while start < chars.len() && white_space(chars[start])
        invariant
            chars@ == s@,
            start <= chars.len(),
            trimmed_start(s@) == trimmed_start(s@.skip(start as int)),
        decreases chars.len() - start,
    {
        assert(s@.skip(start as int).drop_first() == s@.skip(start + 1));
        start = start + 1;
    }
    assert(trimmed_start(s@) == s@.skip(start as int));
    let mut end: usize = chars.len();
    assert(s@.subrange(start as int, end as int) == s@.skip(start as int));
    while start < end && white_space(chars[end - 1])
        invariant
            chars@ == s@,
            start <= end <= chars.len(),
            trimmed(s@) == trimmed_end(s@.subrange(start as int, end as int)),
        decreases end,
    {
        assert(s@.subrange(start as int, end as int).drop_last() == s@.subrange(
            start as int,
            end - 1,
        ));
        end = end - 1;
    }
    s.substring_char(start, end).to_owned()
}

// --- Lines ---

/// The position of the first line feed in `s`, or the length of `s` where there is none.
pub open spec fn line_end(s: Seq<char>) -> nat
    decreases s.len(),
{
    if s.len() == 0 || s.first() == '\n' {
        0
    } else {
        1 + line_end(s.drop_first())
    }
}

/// `s` without one carriage return at its end.
pub open spec fn without_return(s: Seq<char>) -> Seq<char> {
    if s.len() > 0 && s.last() == '\r' {
        s.drop_last()
    } else {
        s
    }
}

/// The lines of a text. A line ends with a line feed, or with a carriage return and a line feed;
/// the last line may lack its ending, and then keeps a carriage return that it has.
pub open spec fn lines_of(s: Seq<char>) -> Seq<Seq<char>>
    decreases s.len(),
{
    if s.len() == 0 {
        Seq::empty()
    } else if line_end(s) >= s.len() {
        seq![s]
    } else {
        seq![without_return(s.take(line_end(s) as int))] + lines_of(s.skip(line_end(s) as int + 1))
    }
}

/// Lines put together again, with a line feed between any two.
pub open spec fn joined(lines: Seq<Seq<char>>) -> Seq<char>
    decreases lines.len(),
{
    if lines.len() == 0 {
        Seq::empty()
    } else if lines.len() == 1 {
        lines[0]
    } else {
        joined(lines.drop_last()) + seq!['\n'] + lines.last()
    }
}

/// What each string of a sequence holds.
pub open spec fn texts(strings: Seq<String>) -> Seq<Seq<char>> {
    strings.map_values(|s: String| s@)
}

/// What both strings of a pair hold.
pub open spec fn pair_view(pair: (String, String)) -> (Seq<char>, Seq<char>) {
    (pair.0@, pair.1@)
}

/// What the pairs of a sequence hold.
pub open spec fn pairs_view(pairs: Seq<(String, String)>) -> Seq<(Seq<char>, Seq<char>)> {
    pairs.map_values(|pair: (String, String)| pair_view(pair))
}

pub(crate) proof fn lemma_line_end(s: Seq<char>, end: int)
    requires
        0 <= end <= s.len(),
        forall|i: int| 0 <= i < end ==> s[i] != '\n',
        end < s.len() ==> s[end] == '\n',
    ensures
        line_end(s) == end,
    decreases end,
{
    if end > 0 {
        assert forall|i: int| 0 <= i < end - 1 implies s.drop_first()[i] != '\n' by {
            assert(s[i + 1] != '\n');
        }
        lemma_line_end(s.drop_first(), end - 1);
    }
}

pub fn lines(s: &str) -> (r: Vec<String>)
    ensures
        texts(r@) == lines_of(s@),
{
    let chars = to_chars(s);
    let mut out: Vec<String> = Vec::new();
    let mut start: usize = 0;
    let mut i: usize = 0;
    assert(s@.skip(0) == s@);
    assert(texts(out@) + lines_of(s@) == lines_of(s@));
    while i < chars.len()
        invariant
            chars@ == s@,
            start <= i <= chars.len(),
            forall|j: int| start <= j < i ==> s@[j] != '\n',
            texts(out@) + lines_of(s@.skip(start as int)) == lines_of(s@),
        decreases chars.len() - i,
    {
        if chars[i] == '\n' {
            let ghost rest = s@.skip(start as int);
            let end: usize = if i > start && chars[i - 1] == '\r' {
                i - 1
            } else {
                i
            };
            let line: String = s.substring_char(start, end).to_owned();
            proof {
                lemma_line_end(rest, i - start);
                assert(line@ == without_return(rest.take(i - start)));
                assert(rest.skip(line_end(rest) as int + 1) == s@.skip(i + 1));
                assert(texts(out@.push(line)) == texts(out@).push(line@));
                assert(texts(out@).push(line@) + lines_of(s@.skip(i + 1)) == texts(out@) + (seq![
                    line@,
                ] + lines_of(s@.skip(i + 1))));
            }
            out.push(line);
            start = i + 1;
        }
        i = i + 1;
    }
    if start < chars.len() {
        let line: String = s.substring_char(start, chars.len()).to_owned();
        proof {
            let rest = s@.skip(start as int);
            lemma_line_end(rest, rest.len() as int);
            assert(line@ == rest);
            assert(texts(out@.push(line)) == texts(out@) + seq![rest]);
        }
        out.push(line);
    } else {
        assert(texts(out@) + lines_of(s@.skip(start as int)) == texts(out@));
    }
    out
}

pub fn join_lines(lines: &Vec<String>) -> (r: String)
    ensures
        r@ == joined(texts(lines@)),
{
    let mut r = String::new();
    let mut i: usize = 0;
    while i < lines.len()
        invariant
            i <= lines.len(),
            r@ == joined(texts(lines@).take(i as int)),
        decreases lines.len() - i,
    {
        proof {
            reveal_strlit("\n");
            assert("\n"@ == seq!['\n']);
            assert(texts(lines@).take(i + 1).drop_last() == texts(lines@).take(i as int));
        }
        if i > 0 {
            r.append("\n");
        }
        r.append(lines[i].as_str());
        i = i + 1;
    }
    assert(texts(lines@).take(lines@.len() as int) == texts(lines@));
    r
}

/// A text that can stand within one line.
pub open spec fn within_a_line(s: Seq<char>) -> bool {
    forall|i: int| 0 <= i < s.len() ==> s[i] != '\n'
}

proof fn lemma_joined_from_front(lines: Seq<Seq<char>>)
    requires
        lines.len() > 1,
    ensures
        joined(lines) == lines[0] + seq!['\n'] + joined(lines.skip(1)),
    decreases lines.len(),
{
    if lines.len() == 2 {
        assert(lines.drop_last()[0] == lines[0]);
        assert(lines.skip(1)[0] == lines[1]);
        assert(joined(lines.drop_last()) == lines[0]);
    } else {
        lemma_joined_from_front(lines.drop_last());
        assert(lines.drop_last().skip(1) == lines.skip(1).drop_last());
        assert(joined(lines) =~= lines[0] + seq!['\n'] + joined(lines.skip(1)));
    }
}

/// The lines, each without one carriage return at its end.
pub open spec fn without_returns(lines: Seq<Seq<char>>) -> Seq<Seq<char>> {
    lines.map_values(|line: Seq<char>| without_return(line))
}

/// Lines put together are read as those lines, each without one carriage return at its end. Where
/// no line feed ends the text, the last line is read as it stands, and has to hold something to
/// be read at all.
pub proof fn law_joined_lines_read_back(lines: Seq<Seq<char>>)
    requires
        lines.len() > 0,
        forall|i: int| 0 <= i < lines.len() ==> within_a_line(#[trigger] lines[i]),
    ensures
        lines_of(joined(lines).push('\n')) == without_returns(lines),
        lines.last().len() > 0 ==> lines_of(joined(lines)) == without_returns(
            lines.drop_last(),
        ).push(lines.last()),
    decreases lines.len(),
{
    let first = lines[0];
    assert(within_a_line(first));
    if lines.len() == 1 {
        lemma_line_end(first, first.len() as int);
        lemma_line_end(first.push('\n'), first.len() as int);
        assert(first.push('\n').take(first.len() as int) == first);
        assert(first.push('\n').skip(first.len() as int + 1) == Seq::<char>::empty());
        assert(lines_of(Seq::<char>::empty()) == Seq::<Seq<char>>::empty());
        assert(lines_of(first.push('\n')) =~= without_returns(lines));
        assert(without_returns(lines.drop_last()).push(lines.last()) =~= seq![first]);
    } else {
        let rest = lines.skip(1);
        assert forall|i: int| 0 <= i < rest.len() implies within_a_line(#[trigger] rest[i]) by {
            assert(within_a_line(lines[i + 1]));
        }
        law_joined_lines_read_back(rest);
        lemma_joined_from_front(lines);
        let text = joined(lines);
        lemma_line_end(text, first.len() as int);
        lemma_line_end(text.push('\n'), first.len() as int);
        assert(text.take(first.len() as int) == first);
        assert(text.push('\n').take(first.len() as int) == first);
        assert(text.skip(first.len() as int + 1) == joined(rest));
        assert(text.push('\n').skip(first.len() as int + 1) == joined(rest).push('\n'));
        assert(rest.last() == lines.last());
        assert(seq![without_return(first)] + without_returns(rest) =~= without_returns(lines));
        assert(seq![without_return(first)] + without_returns(rest.drop_last()).push(rest.last())
            =~= without_returns(lines.drop_last()).push(lines.last()));
    }
}

/// Where no line feed ends a text, its last line holds something.
pub(crate) proof fn lemma_unended_last_line(s: Seq<char>)
    requires
        s.len() > 0,
        s.last() != '\n',
    ensures
        lines_of(s).len() > 0,
        lines_of(s).last().len() > 0,
    decreases s.len(),
{
    let end = line_end(s) as int;
    if end < s.len() {
        lemma_line_end_is_first(s);
        assert(s[end] == '\n');
        lemma_unended_last_line(s.skip(end + 1));
        assert(lines_of(s).last() == lines_of(s.skip(end + 1)).last());
    }
}

/// No line holds a line feed.
pub proof fn law_lines_hold_no_line_feed(s: Seq<char>, line: int, i: int)
    requires
        0 <= line < lines_of(s).len(),
        0 <= i < lines_of(s)[line].len(),
    ensures
        lines_of(s)[line][i] != '\n',
    decreases s.len(),
{
    let end = line_end(s) as int;
    lemma_line_end_is_first(s);
    if end < s.len() {
        if line > 0 {
            law_lines_hold_no_line_feed(s.skip(end + 1), line - 1, i);
        }
    }
}

proof fn lemma_line_end_is_first(s: Seq<char>)
    ensures
        line_end(s) <= s.len(),
        line_end(s) < s.len() ==> s[line_end(s) as int] == '\n',
        forall|i: int| 0 <= i < line_end(s) ==> s[i] != '\n',
    decreases s.len(),
{
    if s.len() > 0 && s.first() != '\n' {
        lemma_line_end_is_first(s.drop_first());
        assert forall|i: int| 0 <= i < line_end(s) implies s[i] != '\n' by {
            if i > 0 {
                assert(s[i] == s.drop_first()[i - 1]);
            }
        }
    }
}

// --- Numbers ---

pub open spec fn is_digit(c: char) -> bool {
    '0' <= c <= '9'
}

pub open spec fn digit(n: nat) -> char {
    ('0' as nat + n % 10) as char
}

/// A number in decimal digits, without leading zeros.
pub open spec fn decimal(n: nat) -> Seq<char>
    decreases n,
{
    if n < 10 {
        seq![digit(n)]
    } else {
        decimal(n / 10).push(digit(n % 10))
    }
}

/// The number that decimal digits stand for.
pub open spec fn number(digits: Seq<char>) -> nat
    decreases digits.len(),
{
    if digits.len() == 0 {
        0
    } else {
        number(digits.drop_last()) * 10 + (digits.last() as nat - '0' as nat) as nat
    }
}

/// The number that a text stands for: decimal digits, at least one of them, behind at most one
/// plus sign.
pub open spec fn read_number(s: Seq<char>) -> Option<nat> {
    let digits = without_prefix(s, seq!['+']);
    if digits.len() > 0 && (forall|i: int| 0 <= i < digits.len() ==> is_digit(digits[i])) {
        Some(number(digits))
    } else {
        None
    }
}

fn digit_text(n: u64) -> (r: &'static str)
    requires
        n < 10,
    ensures
        r@ == seq![digit(n as nat)],
{
    proof {
        reveal_strlit("0");
        reveal_strlit("1");
        reveal_strlit("2");
        reveal_strlit("3");
        reveal_strlit("4");
        reveal_strlit("5");
        reveal_strlit("6");
        reveal_strlit("7");
        reveal_strlit("8");
        reveal_strlit("9");
    }
    let r: &'static str = match n {
        0 => "0",
        1 => "1",
        2 => "2",
        3 => "3",
        4 => "4",
        5 => "5",
        6 => "6",
        7 => "7",
        8 => "8",
        _ => "9",
    };
    assert(r@ =~= seq![digit(n as nat)]);
    r
}

pub fn decimal_text(n: u64) -> (r: String)
    ensures
        r@ == decimal(n as nat),
    decreases n,
{
    if n < 10 {
        digit_text(n).to_owned()
    } else {
        decimal_text(n / 10).concat(digit_text(n % 10))
    }
}

/// Reads a `u32` from its decimal text.
pub fn parse_u32(s: &str) -> (r: Option<u32>)
    ensures
        match read_number(s@) {
            Some(n) if n <= u32::MAX => r == Some(n as u32),
            _ => r is None,
        },
{
    let chars = to_chars(s);
    let start: usize = if chars.len() > 0 && chars[0] == '+' {
        1
    } else {
        0
    };
    let ghost digits = without_prefix(s@, seq!['+']);
    proof {
        assert(chars@.len() > 0 ==> s@.subrange(0, 1) =~= seq![s@[0]]);
        assert(seq!['+'][0] == '+');
        assert(digits == s@.skip(start as int));
    }
    if start >= chars.len() {
        return None;
    }
    let mut value: u64 = 0;
    let mut too_large: bool = false;
    let mut i: usize = start;
    while i < chars.len()
        invariant
            chars@ == s@,
            start <= i <= chars.len(),
            digits == without_prefix(s@, seq!['+']),
            digits == s@.skip(start as int),
            value <= u32::MAX,
            forall|j: int| 0 <= j < i - start ==> is_digit(digits[j]),
            too_large ==> number(digits.take(i - start)) > u32::MAX,
            !too_large ==> number(digits.take(i - start)) == value,
        decreases chars.len() - i,
    {
        let c = chars[i];
        assert(digits[i - start] == c);
        if c < '0' || c > '9' {
            assert(!is_digit(digits[i - start]));
            return None;
        }
        assert(digits.take(i + 1 - start).drop_last() == digits.take(i - start));
        if !too_large {
            value = value * 10 + (c as u64 - '0' as u64);
            if value > 0xffff_ffff {
                too_large = true;
                value = 0;
            }
        }
        i = i + 1;
    }
    assert(digits.take(digits.len() as int) == digits);
    if too_large {
        None
    } else {
        Some(value as u32)
    }
}

// --- What the parts of a text are ---

proof fn lemma_decimal(n: nat)
    ensures
        decimal(n).len() > 0,
        forall|i: int| 0 <= i < decimal(n).len() ==> is_digit(#[trigger] decimal(n)[i]),
        number(decimal(n)) == n,
        n > 0 ==> decimal(n)[0] != '0',
    decreases n,
{
    if n < 10 {
        reveal_with_fuel(number, 2);
        assert(decimal(n).drop_last() =~= Seq::<char>::empty());
        assert(decimal(n).last() == digit(n));
    } else {
        lemma_decimal(n / 10);
        assert(decimal(n).drop_last() =~= decimal(n / 10));
        assert(decimal(n).last() == digit(n % 10));
    }
}

/// A number that is written in decimal digits is read back as that number, with and without a plus
/// sign, and has no leading zero.
pub proof fn law_decimal_reads_back(n: nat)
    ensures
        read_number(decimal(n)) == Some(n),
        read_number(seq!['+'] + decimal(n)) == Some(n),
        n > 0 ==> decimal(n)[0] != '0',
{
    lemma_decimal(n);
    let s = decimal(n);
    let signed = seq!['+'] + s;
    assert(seq!['+'][0] == '+');
    if begins_with(s, seq!['+']) {
        assert(s.subrange(0, 1)[0] == s[0]);
        assert(is_digit(s[0]));
    }
    assert(signed.subrange(0, 1) =~= seq!['+']);
    assert(signed.skip(1) =~= s);
}

/// Different numbers are written differently.
pub proof fn law_decimal_tells_numbers_apart(n: nat, m: nat)
    requires
        decimal(n) == decimal(m),
    ensures
        n == m,
{
    lemma_decimal(n);
    lemma_decimal(m);
}

/// A text that holds anything but digits behind a plus sign stands for no number, and neither does
/// one without digits.
pub proof fn law_other_texts_are_no_numbers(s: Seq<char>, at: int)
    ensures
        s.len() == 0 ==> read_number(s) is None,
        s == seq!['+'] ==> read_number(s) is None,
        0 <= at < s.len() && !('0' <= s[at] <= '9') && !(at == 0 && s[0] == '+') ==> read_number(s)
            is None,
{
    assert(seq!['+'][0] == '+');
    let digits = without_prefix(s, seq!['+']);
    if begins_with(s, seq!['+']) {
        assert(s.subrange(0, 1)[0] == s[0]);
        if 0 < at < s.len() {
            assert(digits[at - 1] == s[at]);
        }
    }
}

proof fn lemma_trimmed_start(s: Seq<char>)
    ensures
        trimmed_start(s).len() <= s.len(),
        trimmed_start(s) == s.skip(s.len() - trimmed_start(s).len()),
        forall|i: int|
            0 <= i < s.len() - trimmed_start(s).len() ==> is_white_space(#[trigger] s[i]),
        trimmed_start(s).len() > 0 ==> !is_white_space(trimmed_start(s).first()),
    decreases s.len(),
{
    if s.len() > 0 && is_white_space(s.first()) {
        let rest = s.drop_first();
        lemma_trimmed_start(rest);
        assert forall|i: int| 0 <= i < s.len() - trimmed_start(s).len() implies is_white_space(
            #[trigger] s[i],
        ) by {
            if i > 0 {
                assert(s[i] == rest[i - 1]);
            }
        }
        assert(trimmed_start(s) =~= s.skip(s.len() - trimmed_start(s).len()));
    } else {
        assert(s.skip(0) =~= s);
    }
}

proof fn lemma_trimmed_end(s: Seq<char>)
    ensures
        trimmed_end(s).len() <= s.len(),
        trimmed_end(s) == s.take(trimmed_end(s).len() as int),
        forall|i: int|
            trimmed_end(s).len() <= i < s.len() ==> is_white_space(#[trigger] s[i]),
        trimmed_end(s).len() > 0 ==> !is_white_space(trimmed_end(s).last()),
    decreases s.len(),
{
    if s.len() > 0 && is_white_space(s.last()) {
        let rest = s.drop_last();
        lemma_trimmed_end(rest);
        assert forall|i: int| trimmed_end(s).len() <= i < s.len() implies is_white_space(
            #[trigger] s[i],
        ) by {
            if i < rest.len() {
                assert(s[i] == rest[i]);
            }
        }
        assert(trimmed_end(s) =~= s.take(trimmed_end(s).len() as int));
    } else {
        assert(s.take(s.len() as int) =~= s);
    }
}

/// A trimmed text stands in the text with nothing but white space before and behind it, and neither
/// begins nor ends with white space.
pub proof fn law_trimmed_loses_white_space_only(s: Seq<char>)
    ensures
        exists|start: int|
            {
                &&& 0 <= start
                &&& start + trimmed(s).len() <= s.len()
                &&& #[trigger] s.subrange(start, start + trimmed(s).len()) == trimmed(s)
                &&& forall|i: int| 0 <= i < start ==> is_white_space(#[trigger] s[i])
                &&& forall|i: int|
                    start + trimmed(s).len() <= i < s.len() ==> is_white_space(#[trigger] s[i])
            },
        trimmed(s).len() > 0 ==> !is_white_space(trimmed(s).first()) && !is_white_space(
            trimmed(s).last(),
        ),
{
    let rest = trimmed_start(s);
    lemma_trimmed_start(s);
    lemma_trimmed_end(rest);
    let start = s.len() - rest.len();
    let inner = trimmed(s);
    assert(s.subrange(start, start + inner.len()) =~= inner);
    assert forall|i: int| start + inner.len() <= i < s.len() implies is_white_space(
        #[trigger] s[i],
    ) by {
        assert(rest[i - start] == s[i]);
    }
    if inner.len() > 0 {
        assert(inner.first() == rest.first());
    }
}

/// White space is the line and paragraph ends, the tab, the blanks of every width that Unicode has,
/// and nothing printable: no letter, digit or punctuation of ASCII.
pub proof fn law_printable_characters_are_no_white_space(c: char)
    requires
        '!' <= c <= '~',
    ensures
        !is_white_space(c),
        is_white_space(' '),
        is_white_space('\t'),
        is_white_space('\n'),
        is_white_space('\r'),
{
}

// --- What the searches mean ---

/// A text begins with another exactly if it is that and something after it, and ends with another
/// exactly if it is something and that after it. It mentions another exactly if that stands between
/// something before and something after.
pub proof fn law_where_a_pattern_stands(s: Seq<char>, pattern: Seq<char>)
    ensures
        begins_with(s, pattern) <==> exists|rest: Seq<char>| s == #[trigger] (pattern + rest),
        finishes_with(s, pattern) <==> exists|rest: Seq<char>| s == #[trigger] (rest + pattern),
        mentions(s, pattern) <==> exists|before: Seq<char>, after: Seq<char>|
            s == #[trigger] (before + pattern + after),
{
    if begins_with(s, pattern) {
        let rest = s.skip(pattern.len() as int);
        assert(s =~= s.subrange(0, pattern.len() as int) + rest);
        assert(s == pattern + rest);
    }
    if exists|rest: Seq<char>| s == #[trigger] (pattern + rest) {
        assert(s.subrange(0, pattern.len() as int) =~= pattern);
    }
    if finishes_with(s, pattern) {
        let at = s.len() - pattern.len();
        assert(s =~= s.take(at) + s.subrange(at, s.len() as int));
        assert(s == s.take(at) + pattern);
    }
    if exists|rest: Seq<char>| s == #[trigger] (rest + pattern) {
        assert(s.subrange(s.len() - pattern.len(), s.len() as int) =~= pattern);
    }
    if mentions(s, pattern) {
        let at = choose|at: int| occurs_at(s, pattern, at);
        let after = s.skip(at + pattern.len());
        assert(s =~= s.take(at) + s.subrange(at, at + pattern.len()) + after);
        assert(s == s.take(at) + pattern + after);
    }
    if exists|before: Seq<char>, after: Seq<char>| s == #[trigger] (before + pattern + after) {
        let (before, after) = choose|before: Seq<char>, after: Seq<char>|
            s == #[trigger] (before + pattern + after);
        assert(s.subrange(before.len() as int, before.len() as int + pattern.len()) =~= pattern);
        assert(occurs_at(s, pattern, before.len() as int));
    }
}

/// A prefix that is there is taken off, once; a text that does not begin with it stays.
pub proof fn law_prefix_is_taken_off(s: Seq<char>, prefix: Seq<char>)
    ensures
        without_prefix(prefix + s, prefix) == s,
        !begins_with(s, prefix) ==> without_prefix(s, prefix) == s,
{
    assert((prefix + s).subrange(0, prefix.len() as int) == prefix);
    assert((prefix + s).skip(prefix.len() as int) == s);
}

/// Digits stand for a number, however many zeros they begin with; one more digit behind them makes
/// it ten times as large and adds the digit.
pub proof fn law_digits_stand_for_a_number(s: Seq<char>, c: char)
    requires
        s.len() > 0,
        forall|i: int| 0 <= i < s.len() ==> '0' <= #[trigger] s[i] <= '9',
        '0' <= c <= '9',
    ensures
        read_number(s) is Some,
        read_number(s.push(c)) == Some((read_number(s)->0 * 10 + (c as nat - '0' as nat)) as nat),
        read_number(seq!['0'] + s) == read_number(s),
        read_number(seq![c]) == Some((c as nat - '0' as nat) as nat),
{
    reveal_with_fuel(number, 2);
    let more = s.push(c);
    let zeros = seq!['0'] + s;
    assert(seq!['+'][0] == '+');
    assert(s.subrange(0, 1)[0] == s[0]);
    assert(more.subrange(0, 1)[0] == s[0]);
    assert(zeros.subrange(0, 1)[0] == '0');
    assert(seq![c].subrange(0, 1)[0] == c);
    assert(more.drop_last() =~= s);
    assert(seq![c].drop_last() =~= Seq::<char>::empty());
    assert forall|i: int| 0 <= i < more.len() implies is_digit(#[trigger] more[i]) by {
        if i < s.len() {
            assert('0' <= s[i] <= '9');
        }
    }
    assert forall|i: int| 0 <= i < zeros.len() implies is_digit(#[trigger] zeros[i]) by {
        if i > 0 {
            assert('0' <= s[i - 1] <= '9');
        }
    }
    lemma_leading_zero(s);
}

proof fn lemma_leading_zero(digits: Seq<char>)
    ensures
        number(seq!['0'] + digits) == number(digits),
    decreases digits.len(),
{
    reveal_with_fuel(number, 2);
    let zeros = seq!['0'] + digits;
    if digits.len() == 0 {
        assert(zeros.drop_last() =~= Seq::<char>::empty());
    } else {
        lemma_leading_zero(digits.drop_last());
        assert(zeros.drop_last() =~= seq!['0'] + digits.drop_last());
    }
}

/// One carriage return at the end of a line is taken off, and nothing else.
pub proof fn law_one_return_is_taken_off(line: Seq<char>)
    ensures
        without_return(line.push('\r')) == line,
        line.len() == 0 || line.last() != '\r' ==> without_return(line) == line,
{
    assert(line.push('\r').drop_last() =~= line);
}

/// White space is told by the code point: tab to carriage return, space, next line, and the blanks
/// and separators of Unicode.
pub proof fn law_white_space_by_code_point(c: char)
    ensures
        is_white_space(c) <==> {
            let point = c as u32;
            ||| 9 <= point <= 13
            ||| point == 32
            ||| point == 133
            ||| point == 160
            ||| point == 5760
            ||| 8192 <= point <= 8202
            ||| point == 8232
            ||| point == 8233
            ||| point == 8239
            ||| point == 8287
            ||| point == 12288
        },
{
}

/// What strings and pairs of strings hold is told of each, in its place.
pub proof fn law_each_string_is_told(strings: Seq<String>, pairs: Seq<(String, String)>)
    ensures
        texts(strings).len() == strings.len(),
        forall|i: int| 0 <= i < strings.len() ==> #[trigger] texts(strings)[i] == strings[i]@,
        pairs_view(pairs).len() == pairs.len(),
        forall|i: int|
            0 <= i < pairs.len() ==> #[trigger] pairs_view(pairs)[i] == (pairs[i].0@, pairs[i].1@),
{
}

} // verus!
