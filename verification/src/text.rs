//! Character classes, runs of characters, words, lines and numerals: the
//! pieces from which the log's token shapes are put together, and with which
//! other texts are taken apart.

use crate::pattern::{pattern_takes, takes};
use vstd::prelude::*;
use vstd::string::{StrSliceExecFns, StringExecFns};

verus! {

/// The kinds of character of which the log's tokens hold runs.
#[derive(Debug, Clone, Copy, PartialEq, Eq)]
pub enum CharClass {
    /// White space.
    Space,
    /// A decimal digit, of any script.
    Digit,
    /// A hexadecimal digit, `0` to `9`, `a` to `f` or `A` to `F`.
    Hex,
    /// Any character but white space.
    Visible,
    /// Any character but a line feed.
    InLine,
}

/// White space: the characters with Unicode's White_Space property.
pub open spec fn is_space(c: char) -> bool {
    let u = c as u32;
    ||| 0x09 <= u <= 0x0D
    ||| u == 0x20
    ||| u == 0x85
    ||| u == 0xA0
    ||| u == 0x1680
    ||| 0x2000 <= u <= 0x200A
    ||| u == 0x2028
    ||| u == 0x2029
    ||| u == 0x202F
    ||| u == 0x205F
    ||| u == 0x3000
}

/// A character of ASCII.
pub open spec fn is_ascii_char(c: char) -> bool {
    (c as u32) < 0x80
}

/// A decimal digit: in ASCII `0` to `9`, beyond ASCII what the pattern `\d`
/// takes, the decimal digits of the other scripts.
pub open spec fn is_digit(c: char) -> bool {
    if is_ascii_char(c) {
        '0' <= c <= '9'
    } else {
        pattern_takes("\\d"@, c)
    }
}

/// A hexadecimal digit, in either case.
pub open spec fn is_hex_digit(c: char) -> bool {
    ||| '0' <= c <= '9'
    ||| 'a' <= c <= 'f'
    ||| 'A' <= c <= 'F'
}

/// A character of a word: in ASCII a letter, a decimal digit or an
/// underscore, beyond ASCII what the pattern `\w` takes, the letters, marks,
/// digits and connecting punctuation of the other scripts.
pub open spec fn is_word(c: char) -> bool {
    if is_ascii_char(c) {
        ||| '0' <= c <= '9'
        ||| 'a' <= c <= 'z'
        ||| 'A' <= c <= 'Z'
        ||| c == '_'
    } else {
        pattern_takes("\\w"@, c)
    }
}

/// Whether `c` belongs to `class`.
pub open spec fn in_class(c: char, class: CharClass) -> bool {
    match class {
        CharClass::Space => is_space(c),
        CharClass::Digit => is_digit(c),
        CharClass::Hex => is_hex_digit(c),
        CharClass::Visible => !is_space(c),
        CharClass::InLine => c != '\n',
    }
}

/// Length of the longest run of characters of `class` that starts at `from`.
pub open spec fn run_len(s: Seq<char>, from: int, class: CharClass) -> nat
    decreases s.len() - from,
{
    if 0 <= from < s.len() && in_class(s[from], class) {
        1 + run_len(s, from + 1, class)
    } else {
        0
    }
}

/// Length of the longest run of characters of `class` that ends where the
/// text ends.
pub open spec fn trailing_run_len(s: Seq<char>, class: CharClass) -> nat
    decreases s.len(),
{
    if s.len() > 0 && in_class(s.last(), class) {
        1 + trailing_run_len(s.drop_last(), class)
    } else {
        0
    }
}

/// Whether a word starts at `at`: the character there belongs to a word and
/// the one before it, if there is one, does not.
pub open spec fn word_starts_at(s: Seq<char>, at: int) -> bool {
    &&& 0 <= at < s.len()
    &&& is_word(s[at])
    &&& at == 0 || !is_word(s[at - 1])
}

/// The first word of a text: what stands between the white space at its
/// front and the next white space.
pub open spec fn first_word(s: Seq<char>) -> Seq<char> {
    let start = run_len(s, 0, CharClass::Space) as int;
    s.subrange(start, start + run_len(s, start, CharClass::Visible))
}

/// The text without the white space at its front and at its end.
pub open spec fn trimmed(s: Seq<char>) -> Seq<char> {
    let start = run_len(s, 0, CharClass::Space) as int;
    if start == s.len() {
        Seq::empty()
    } else {
        s.subrange(start, s.len() - trailing_run_len(s, CharClass::Space))
    }
}

/// Where the line that holds position `from` ends: at the next line feed or
/// at the end of the text.
pub open spec fn line_end(s: Seq<char>, from: int) -> int {
    from + run_len(s, from, CharClass::InLine)
}

/// Where the first line that begins with `prefix` starts, among the lines
/// from the one that starts at `from` on.
pub open spec fn first_line_with(s: Seq<char>, from: int, prefix: Seq<char>) -> Option<int>
    decreases s.len() - from,
{
    if from < 0 || from > s.len() {
        None
    } else if from + prefix.len() <= line_end(s, from) && s.subrange(from, from + prefix.len())
        == prefix {
        Some(from)
    } else if from <= line_end(s, from) < s.len() {
        first_line_with(s, line_end(s, from) + 1, prefix)
    } else {
        None
    }
}

/// The value of a digit in any radix up to sixteen; zero for other characters.
pub open spec fn digit_value(c: char) -> nat {
    if '0' <= c <= '9' {
        (c as u32 - '0' as u32) as nat
    } else if 'a' <= c <= 'f' {
        (c as u32 - 'a' as u32 + 10) as nat
    } else if 'A' <= c <= 'F' {
        (c as u32 - 'A' as u32 + 10) as nat
    } else {
        0
    }
}

/// The number that the digits `s` spell in the given radix, most significant
/// digit first.
pub open spec fn radix_value(s: Seq<char>, radix: nat) -> nat
    decreases s.len(),
{
    if s.len() == 0 {
        0
    } else {
        radix_value(s.drop_last(), radix) * radix + digit_value(s.last())
    }
}

/// A digit of radix ten or sixteen, in ASCII.
pub open spec fn is_radix_digit(c: char, radix: nat) -> bool {
    if radix == 10 {
        '0' <= c <= '9'
    } else {
        is_hex_digit(c)
    }
}

/// Whether every character of the text is a digit of the radix, in ASCII.
pub open spec fn all_radix_digits(s: Seq<char>, radix: nat) -> bool {
    forall|i: int| 0 <= i < s.len() ==> is_radix_digit(#[trigger] s[i], radix)
}

/// The number that a numeral spells, where every one of its characters is a
/// digit of the radix in ASCII and the number is at most `max`; none else.
pub open spec fn numeral(s: Seq<char>, radix: nat, max: nat) -> Option<nat> {
    if all_radix_digits(s, radix) && radix_value(s, radix) <= max {
        Some(radix_value(s, radix))
    } else {
        None
    }
}

/// Where a hexadecimal literal that starts at `at` ends: behind `0x` and the
/// longest run of hexadecimal digits, of which there is at least one.
pub open spec fn hex_literal_end(s: Seq<char>, at: int) -> Option<int> {
    if 0 <= at && at + 2 < s.len() && s[at] == '0' && s[at + 1] == 'x' && run_len(
        s,
        at + 2,
        CharClass::Hex,
    ) >= 1 {
        Some(at + 2 + run_len(s, at + 2, CharClass::Hex))
    } else {
        None
    }
}

/// The decimal digit for a number below ten.
pub open spec fn digit_char(d: nat) -> char {
    ('0' as u32 + d) as char
}

/// The decimal numeral of a number, without leading zeros.
pub open spec fn decimal_digits(n: nat) -> Seq<char>
    decreases n,
{
    if n < 10 {
        seq![digit_char(n)]
    } else {
        decimal_digits(n / 10).push(digit_char(n % 10))
    }
}

/// A run never reaches past the end of the text, and every character in it
/// belongs to the class, while the one behind it does not.
pub proof fn lemma_run_len(s: Seq<char>, from: int, class: CharClass)
    requires
        0 <= from <= s.len(),
    ensures
        from + run_len(s, from, class) <= s.len(),
        forall|i: int| from <= i < from + run_len(s, from, class) ==> in_class(#[trigger] s[i], class),
        from + run_len(s, from, class) < s.len() ==> !in_class(
            s[from + run_len(s, from, class)],
            class,
        ),
    decreases s.len() - from,
{
    if from < s.len() && in_class(s[from], class) {
        lemma_run_len(s, from + 1, class);
    }
}

/// A run at the end of the text does not reach back over a character that
/// is not of its class.
pub proof fn lemma_trailing_run_stops(s: Seq<char>, class: CharClass, at: int)
    requires
        0 <= at < s.len(),
        !in_class(s[at], class),
    ensures
        at + trailing_run_len(s, class) < s.len(),
    decreases s.len(),
{
    if in_class(s.last(), class) {
        lemma_trailing_run_stops(s.drop_last(), class, at);
    }
}

/// A numeral does not get smaller when digits are appended to it.
pub proof fn lemma_radix_value_grows(s: Seq<char>, k: int, radix: nat)
    requires
        0 <= k <= s.len(),
        radix >= 1,
    ensures
        radix_value(s.take(k), radix) <= radix_value(s, radix),
    decreases s.len() - k,
{
    if k == s.len() {
        assert(s.take(k) =~= s);
    } else {
        lemma_radix_value_grows(s.drop_last(), k, radix);
        assert(s.drop_last().take(k) =~= s.take(k));
        assert(radix_value(s.drop_last(), radix) <= radix_value(s.drop_last(), radix) * radix)
            by (nonlinear_arith)
            requires
                radix >= 1,
        ;
    }
}

/// Tests whether a character is white space.
pub fn char_is_space(c: char) -> (b: bool)
    ensures
        b == is_space(c),
{
    let u = c as u32;
    (0x09 <= u && u <= 0x0D) || u == 0x20 || u == 0x85 || u == 0xA0 || u == 0x1680 || (0x2000
        <= u && u <= 0x200A) || u == 0x2028 || u == 0x2029 || u == 0x202F || u == 0x205F || u
        == 0x3000
}

/// Tests whether a character belongs to a word.
pub fn char_is_word(c: char) -> (b: bool)
    ensures
        b == is_word(c),
{
    if (c as u32) < 0x80 {
        ('0' <= c && c <= '9') || ('a' <= c && c <= 'z') || ('A' <= c && c <= 'Z') || c == '_'
    } else {
        takes("\\w", c)
    }
}

/// Tests a character for membership in a class.
pub fn char_in_class(c: char, class: CharClass) -> (b: bool)
    ensures
        b == in_class(c, class),
{
    match class {
        CharClass::Space => char_is_space(c),
        CharClass::Visible => !char_is_space(c),
        CharClass::InLine => c != '\n',
        CharClass::Digit => {
            if (c as u32) < 0x80 {
                '0' <= c && c <= '9'
            } else {
                takes("\\d", c)
            }
        },
        CharClass::Hex => ('0' <= c && c <= '9') || ('a' <= c && c <= 'f') || ('A' <= c && c
            <= 'F'),
    }
}

/// The characters of a string, one by one.
pub fn to_chars(s: &str) -> (chars: Vec<char>)
    ensures
        chars@ == s@,
{
    let mut chars: Vec<char> = Vec::new();
    for c in it: s.chars()
        invariant
            chars@ == it.seq().take(it.index() as int),
    {
        chars.push(c);
    }
    chars
}

/// Measures the run of `class` that starts at `from`.
pub fn scan_run(s: &[char], from: usize, class: CharClass) -> (n: usize)
    requires
        from <= s@.len(),
    ensures
        n == run_len(s@, from as int, class),
        from + n <= s@.len(),
{
    let mut end = from;
    while end < s.len() && char_in_class(s[end], class)
        invariant
            from <= end <= s@.len(),
            run_len(s@, from as int, class) == (end - from) + run_len(s@, end as int, class),
        decreases s@.len() - end,
    {
        end += 1;
    }
    end - from
}

/// Measures the run of `class` at the end of the text.
pub fn scan_trailing_run(s: &[char], class: CharClass) -> (n: usize)
    ensures
        n == trailing_run_len(s@, class),
        n <= s@.len(),
{
    let mut end = s.len();
    assert(s@.take(end as int) =~= s@);
    while end > 0 && char_in_class(s[end - 1], class)
        invariant
            end <= s@.len(),
            trailing_run_len(s@, class) == (s@.len() - end) + trailing_run_len(
                s@.take(end as int),
                class,
            ),
        decreases end,
    {
        proof {
            assert(s@.take(end as int).drop_last() =~= s@.take(end - 1));
        }
        end -= 1;
    }
    s.len() - end
}

/// Tests whether a word starts at `at`.
pub fn starts_word(s: &[char], at: usize) -> (b: bool)
    ensures
        b == word_starts_at(s@, at as int),
{
    at < s.len() && char_is_word(s[at]) && (at == 0 || !char_is_word(s[at - 1]))
}

/// Finds the end of a hexadecimal literal that starts at `at`.
pub fn scan_hex_literal(s: &[char], at: usize) -> (end: Option<usize>)
    ensures
        end matches Some(e) ==> hex_literal_end(s@, at as int) == Some(e as int) && at + 3 <= e
            <= s@.len(),
        end is None ==> hex_literal_end(s@, at as int) is None,
{
    if s.len() < 3 || at >= s.len() - 2 {
        return None;
    }
    if s[at] != '0' || s[at + 1] != 'x' {
        return None;
    }
    let digits = scan_run(s, at + 2, CharClass::Hex);
    if digits == 0 {
        None
    } else {
        Some(at + 2 + digits)
    }
}

/// Reads the numeral `s[start..end]` in radix ten or sixteen. Gives `None`
/// when a character is no digit of the radix in ASCII, or when the number is
/// greater than `max`.
pub fn parse_numeral(s: &[char], start: usize, end: usize, radix: u64, max: u64) -> (value: Option<
    u64,
>)
    requires
        start <= end <= s@.len(),
        radix == 10 || radix == 16,
    ensures
        match numeral(s@.subrange(start as int, end as int), radix as nat, max as nat) {
            Some(v) => value == Some(v as u64),
            None => value is None,
        },
{
    let ghost digits = s@.subrange(start as int, end as int);
    let mut acc: u64 = 0;
    let mut i = start;
    while i < end
        invariant
            start <= i <= end <= s@.len(),
            radix == 10 || radix == 16,
            digits == s@.subrange(start as int, end as int),
            acc == radix_value(digits.take(i - start), radix as nat),
            acc <= max,
            forall|j: int| 0 <= j < i - start ==> is_radix_digit(#[trigger] digits[j], radix as nat),
        decreases end - i,
    {
        let c = s[i];
        let decimal = '0' <= c && c <= '9';
        let lower = 'a' <= c && c <= 'f';
        let upper = 'A' <= c && c <= 'F';
        if !decimal && (radix == 10 || (!lower && !upper)) {
            assert(!is_radix_digit(digits[i - start], radix as nat));
            return None;
        }
        let d: u64 = if decimal {
            (c as u32 - '0' as u32) as u64
        } else if lower {
            (c as u32 - 'a' as u32 + 10) as u64
        } else {
            (c as u32 - 'A' as u32 + 10) as u64
        };
        proof {
            let longer = digits.take(i - start + 1);
            assert(longer.drop_last() =~= digits.take(i - start));
            assert(longer.last() == c);
            assert(d == digit_value(c));
            assert(radix_value(longer, radix as nat) == acc * radix + d);
            lemma_radix_value_grows(digits, i - start + 1, radix as nat);
        }
        if d > max || acc > (max - d) / radix {
            assert(acc * radix + d > max) by (nonlinear_arith)
                requires
                    d > max || acc > (max - d) / (radix as int),
                    radix == 10 || radix == 16,
                    acc >= 0,
                    d >= 0,
            ;
            return None;
        }
        assert(acc * radix + d <= max) by (nonlinear_arith)
            requires
                acc <= (max - d) / (radix as int),
                d <= max,
                radix == 10 || radix == 16,
        ;
        acc = acc * radix + d;
        i += 1;
    }
    assert(digits.take(end - start) =~= digits);
    Some(acc)
}

/// Cuts the first word out of a text.
pub fn first_word_of(text: &str) -> (word: String)
    ensures
        word@ == first_word(text@),
{
    let chars = to_chars(text);
    let start = scan_run(chars.as_slice(), 0, CharClass::Space);
    let len = scan_run(chars.as_slice(), start, CharClass::Visible);
    text.substring_char(start, start + len).to_owned()
}

/// Cuts the white space off both ends of a text.
pub fn trim(text: &str) -> (cut: String)
    ensures
        cut@ == trimmed(text@),
{
    let chars = to_chars(text);
    let start = scan_run(chars.as_slice(), 0, CharClass::Space);
    if start == chars.len() {
        proof {
            reveal_strlit("");
            assert(""@ =~= Seq::<char>::empty());
        }
        return String::from_str("");
    }
    let tail = scan_trailing_run(chars.as_slice(), CharClass::Space);
    proof {
        lemma_run_len(chars@, 0, CharClass::Space);
        lemma_trailing_run_stops(chars@, CharClass::Space, start as int);
    }
    text.substring_char(start, chars.len() - tail).to_owned()
}

/// Finds the first line that begins with `prefix` and gives what stands
/// behind the prefix in that line, cut of the white space at both ends.
pub fn find_after_prefix(text: &str, prefix: &str) -> (found: Option<String>)
    ensures
        found matches Some(t) ==> first_line_with(text@, 0, prefix@) matches Some(at) && t@
            == trimmed(text@.subrange(at + prefix@.len(), line_end(text@, at))),
        found is None ==> first_line_with(text@, 0, prefix@) is None,
{
    let chars = to_chars(text);
    let width = to_chars(prefix).len();
    let total = chars.len();
    let mut at: usize = 0;
    loop
        invariant
            at <= chars@.len() == total,
            chars@ == text@,
            width == prefix@.len(),
            first_line_with(text@, 0, prefix@) == first_line_with(text@, at as int, prefix@),
        decreases chars@.len() - at,
    {
        let end = at + scan_run(chars.as_slice(), at, CharClass::InLine);
        if width <= end - at && text_has_at(chars.as_slice(), at, prefix) {
            return Some(trim(text.substring_char(at + width, end)));
        }
        if end >= total {
            return None;
        }
        at = end + 1;
    }
}

/// Tests whether the text is exactly `word`.
pub fn text_is(text: &[char], word: &str) -> (b: bool)
    ensures
        b == (text@ == word@),
{
    let w = to_chars(word);
    if w.len() != text.len() {
        return false;
    }
    let mut i: usize = 0;
    while i < w.len()
        invariant
            w@ == word@,
            i <= w@.len() == text@.len(),
            forall|j: int| 0 <= j < i ==> text@[j] == w@[j],
        decreases w@.len() - i,
    {
        if text[i] != w[i] {
            return false;
        }
        i += 1;
    }
    assert(text@ =~= w@);
    true
}

/// Tests whether `word` stands in the text at position `at`.
pub fn text_has_at(text: &[char], at: usize, word: &str) -> (b: bool)
    ensures
        b == (at + word@.len() <= text@.len() && text@.subrange(
            at as int,
            at + word@.len(),
        ) == word@),
{
    let w = to_chars(word);
    if at > text.len() || w.len() > text.len() - at {
        return false;
    }
    let mut i: usize = 0;
    while i < w.len()
        invariant
            w@ == word@,
            at + w@.len() <= text@.len() <= usize::MAX,
            i <= w@.len(),
            forall|j: int| 0 <= j < i ==> text@[at + j] == w@[j],
        decreases w@.len() - i,
    {
        if text[at + i] != w[i] {
            assert(text@.subrange(at as int, at + w@.len())[i as int] != w@[i as int]);
            return false;
        }
        i += 1;
    }
    assert(text@.subrange(at as int, at + w@.len()) =~= w@);
    true
}

/// The one-character text of a decimal digit.
fn digit_text(d: u64) -> (text: &'static str)
    requires
        d < 10,
    ensures
        text@ == seq![digit_char(d as nat)],
{
    proof {
        reveal_strlit("0");
        reveal_strlit("1");
        reveal_strlit("2");
        reveal_strlit("3");
        reveal_strlit("4");
        reveal_strlit("5");
        reveal_strlit("6");
        reveal_strlit("7");
        reveal_strlit("8");
        reveal_strlit("9");
    }
    let text = if d == 0 {
        "0"
    } else if d == 1 {
        "1"
    } else if d == 2 {
        "2"
    } else if d == 3 {
        "3"
    } else if d == 4 {
        "4"
    } else if d == 5 {
        "5"
    } else if d == 6 {
        "6"
    } else if d == 7 {
        "7"
    } else if d == 8 {
        "8"
    } else {
        "9"
    };
    assert(text@ =~= seq![digit_char(d as nat)]);
    text
}

/// Appends the decimal numeral of `n` to a text.
pub fn push_decimal(text: &mut String, n: u64)
    ensures
        final(text)@ == old(text)@ + decimal_digits(n as nat),
    decreases n,
{
    if n >= 10 {
        push_decimal(text, n / 10);
    }
    text.append(digit_text(n % 10));
    assert(text@ =~= old(text)@ + decimal_digits(n as nat));
}

} // verus!
