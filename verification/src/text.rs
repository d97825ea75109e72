//! Character-level text operations, modelled over `Seq<char>`.

use vstd::prelude::*;
use vstd::utf8::is_ascii_chars;

verus! {

/// `String::push` of std appends one character to the end of the string.
pub assume_specification[ String::push ](s: &mut String, c: char)
    ensures
        final(s)@ == old(s)@.push(c),
;

/// The Unicode `White_Space` property.
pub open spec fn is_white_space(c: char) -> bool {
    ||| '\u{9}' <= c <= '\u{d}'
    ||| c == ' '
    ||| c == '\u{85}'
    ||| c == '\u{a0}'
    ||| c == '\u{1680}'
    ||| '\u{2000}' <= c <= '\u{200a}'
    ||| c == '\u{2028}'
    ||| c == '\u{2029}'
    ||| c == '\u{202f}'
    ||| c == '\u{205f}'
    ||| c == '\u{3000}'
}

/// Tests one character for the `White_Space` property.
pub fn white_space(c: char) -> (r: bool)
    ensures
        r == is_white_space(c),
{
    ('\u{9}' <= c && c <= '\u{d}') || c == ' ' || c == '\u{85}' || c == '\u{a0}' || c == '\u{1680}'
        || ('\u{2000}' <= c && c <= '\u{200a}') || c == '\u{2028}' || c == '\u{2029}' || c
        == '\u{202f}' || c == '\u{205f}' || c == '\u{3000}'
}

/// The characters of a string, in order.
pub fn chars_of(s: &str) -> (r: Vec<char>)
    ensures
        r@ == s@,
{
    let mut out: Vec<char> = Vec::new();
    for c in it: s.chars()
        invariant
            it.seq() == s@,
            out@ == s@.take(it.index() as int),
    {
        out.push(c);
    }
    assert(s@.take(s@.len() as int) =~= s@);
    out
}

/// The string made of `chars[from..to]`.
pub fn string_of(chars: &[char], from: usize, to: usize) -> (r: String)
    requires
        from <= to <= chars@.len(),
    ensures
        r@ == chars@.subrange(from as int, to as int),
{
    let mut out = String::new();
    let mut i: usize = from;
    while i < to
        invariant
            from <= i <= to <= chars@.len(),
            out@ == chars@.subrange(from as int, i as int),
        decreases to - i,
    {
        out.push(chars[i]);
        i = i + 1;
    }
    out
}

/// Whether two strings hold the same characters.
pub fn same_text(a: &str, b: &str) -> (r: bool)
    ensures
        r == (a@ == b@),
{
    a.to_owned() == b.to_owned()
}

/// One text after another.
pub fn concat(a: &str, b: &str) -> (r: String)
    ensures
        r@ == a@ + b@,
{
    let mut out = a.to_owned();
    out.append(b);
    out
}

/// The views of a sequence of strings.
pub open spec fn texts(v: Seq<String>) -> Seq<Seq<char>> {
    v.map_values(|s: String| s@)
}

/// `s` without its leading whitespace.
pub open spec fn trim_start(s: Seq<char>) -> Seq<char>
    decreases s.len(),
{
    if s.len() > 0 && is_white_space(s[0]) {
        trim_start(s.drop_first())
    } else {
        s
    }
}

/// `s` without its trailing whitespace.
pub open spec fn trim_end(s: Seq<char>) -> Seq<char>
    decreases s.len(),
{
    if s.len() > 0 && is_white_space(s.last()) {
        trim_end(s.drop_last())
    } else {
        s
    }
}

/// `s` without its leading and its trailing whitespace.
pub open spec fn trim(s: Seq<char>) -> Seq<char> {
    trim_end(trim_start(s))
}

/// `s` without the run of `c` at its end.
pub open spec fn strip_trailing(s: Seq<char>, c: char) -> Seq<char>
    decreases s.len(),
{
    if s.len() > 0 && s.last() == c {
        strip_trailing(s.drop_last(), c)
    } else {
        s
    }
}

/// How many characters precede the first whitespace character of `s`.
pub open spec fn word_len(s: Seq<char>) -> nat
    decreases s.len(),
{
    if s.len() == 0 || is_white_space(s[0]) {
        0
    } else {
        1 + word_len(s.drop_first())
    }
}

/// A word never reaches past the end of the text.
pub proof fn lemma_word_len_bound(s: Seq<char>)
    ensures
        word_len(s) <= s.len(),
    decreases s.len(),
{
    if s.len() > 0 && !is_white_space(s[0]) {
        lemma_word_len_bound(s.drop_first());
    }
}

/// The maximal whitespace-free runs of `s`, in order.
pub open spec fn words(s: Seq<char>) -> Seq<Seq<char>>
    decreases s.len(),
{
    if s.len() == 0 {
        Seq::empty()
    } else if is_white_space(s[0]) {
        words(s.drop_first())
    } else {
        let n = word_len(s);
        proof {
            lemma_word_len_bound(s);
        }
        seq![s.take(n as int)] + words(s.skip(n as int))
    }
}

/// How many characters precede the first `c` in `s`; all of them when `c` does not occur.
pub open spec fn first_index(s: Seq<char>, c: char) -> nat
    decreases s.len(),
{
    if s.len() == 0 || s[0] == c {
        0
    } else {
        1 + first_index(s.drop_first(), c)
    }
}

/// The pieces of `s` between occurrences of `c`.
pub open spec fn split(s: Seq<char>, c: char) -> Seq<Seq<char>>
    decreases s.len(),
{
    let i = first_index(s, c);
    if i >= s.len() {
        seq![s]
    } else {
        seq![s.take(i as int)] + split(s.skip(i as int + 1), c)
    }
}

/// Whether `pattern` stands at offset `at` of `s`.
pub open spec fn occurs_at(s: Seq<char>, pattern: Seq<char>, at: int) -> bool {
    &&& 0 <= at
    &&& at + pattern.len() <= s.len()
    &&& s.subrange(at, at + pattern.len()) == pattern
}

/// Whether `pattern` is a substring of `s`.
pub open spec fn contains(s: Seq<char>, pattern: Seq<char>) -> bool {
    exists|at: int| occurs_at(s, pattern, at)
}

/// The numeric value of an ASCII digit.
pub open spec fn digit_value(c: char) -> int {
    c as int - '0' as int
}

/// Whether `s` holds ASCII digits only.
pub open spec fn all_digits(s: Seq<char>) -> bool {
    forall|i: int| 0 <= i < s.len() ==> '0' <= #[trigger] s[i] <= '9'
}

/// The number that a run of ASCII digits writes in base ten.
pub open spec fn digits_value(s: Seq<char>) -> int
    decreases s.len(),
{
    if s.len() == 0 {
        0
    } else {
        10 * digits_value(s.drop_last()) + digit_value(s.last())
    }
}

/// The unsigned number that `s` writes: digits, after at most one plus sign.
pub open spec fn parse_u32(s: Seq<char>) -> Option<u32> {
    let digits = if s.len() > 0 && s[0] == '+' {
        s.drop_first()
    } else {
        s
    };
    if digits.len() > 0 && all_digits(digits) && digits_value(digits) <= u32::MAX {
        Some(digits_value(digits) as u32)
    } else {
        None
    }
}

/// The character of one decimal digit.
pub open spec fn digit_char(d: nat) -> char {
    (('0' as nat) + d) as char
}

/// `n` written in base ten, without leading zeros.
pub open spec fn decimal(n: nat) -> Seq<char>
    decreases n,
{
    if n < 10 {
        seq![digit_char(n)]
    } else {
        decimal(n / 10).push(digit_char(n % 10))
    }
}

/// Appends `n` in base ten.
pub fn push_decimal(out: &mut String, n: u64)
    ensures
        final(out)@ == old(out)@ + decimal(n as nat),
    decreases n,
{
    if n >= 10 {
        push_decimal(out, n / 10);
    }
    let c = digit_of((n % 10) as u8);
    out.push(c);
}

fn digit_of(d: u8) -> (c: char)
    requires
        d < 10,
    ensures
        c == digit_char(d as nat),
{
    (48u8 + d) as char
}

/// The characters of `s` without surrounding whitespace.
pub fn trim_chars(s: &Vec<char>) -> (r: Vec<char>)
    ensures
        r@ == trim(s@),
{
    let mut from: usize = 0;
    assert(s@.skip(0) =~= s@);
    while from < s.len() && white_space(s[from])
        invariant
            from <= s@.len(),
            trim_start(s@.skip(from as int)) == trim_start(s@),
        decreases s@.len() - from,
    {
        assert(s@.skip(from as int).drop_first() =~= s@.skip(from + 1));
        from = from + 1;
    }
    let ghost rest = s@.skip(from as int);
    let mut to: usize = s.len();
    assert(s@.subrange(from as int, to as int) =~= rest);
    while to > from && white_space(s[to - 1])
        invariant
            from <= to <= s@.len(),
            trim_end(s@.subrange(from as int, to as int)) == trim_end(rest),
        decreases to,
    {
        assert(s@.subrange(from as int, to as int).drop_last() =~= s@.subrange(
            from as int,
            to - 1,
        ));
        to = to - 1;
    }
    let mut out: Vec<char> = Vec::new();
    let mut i: usize = from;
    while i < to
        invariant
            from <= i <= to <= s@.len(),
            out@ == s@.subrange(from as int, i as int),
        decreases to - i,
    {
        out.push(s[i]);
        i = i + 1;
    }
    out
}

/// The first word of `s` from offset `from` on: its end, which is `from` when there is none there.
fn word_end(s: &Vec<char>, from: usize) -> (to: usize)
    requires
        from <= s@.len(),
    ensures
        to == from + word_len(s@.skip(from as int)),
        to <= s@.len(),
{
    let mut to: usize = from;
    while to < s.len() && !white_space(s[to])
        invariant
            from <= to <= s@.len(),
            to + word_len(s@.skip(to as int)) == from + word_len(s@.skip(from as int)),
        decreases s@.len() - to,
    {
        assert(s@.skip(to as int).drop_first() =~= s@.skip(to + 1));
        to = to + 1;
    }
    to
}

/// The whitespace-separated words of `s`.
pub fn words_of(s: &Vec<char>) -> (r: Vec<String>)
    ensures
        texts(r@) == words(s@),
{
    let mut out: Vec<String> = Vec::new();
    let mut i: usize = 0;
    assert(s@.skip(0) =~= s@);
    assert(texts(out@) + words(s@.skip(0)) =~= words(s@));
    while i < s.len()
        invariant
            i <= s@.len(),
            texts(out@) + words(s@.skip(i as int)) == words(s@),
        decreases s@.len() - i,
    {
        let ghost rest = s@.skip(i as int);
        if white_space(s[i]) {
            assert(rest.drop_first() =~= s@.skip(i + 1));
            i = i + 1;
        } else {
            let to = word_end(s, i);
            let ghost before = out@;
            assert(to > i);
            let word = string_of(s.as_slice(), i, to);
            assert(word@ =~= rest.take(to - i));
            assert(rest.skip(to - i) =~= s@.skip(to as int));
            out.push(word);
            assert(texts(out@) =~= texts(before).push(word@));
            assert(texts(out@) + words(s@.skip(to as int)) =~= texts(before) + words(rest));
            i = to;
        }
    }
    assert(texts(out@) =~= texts(out@) + words(s@.skip(i as int)));
    out
}

/// The pieces of `s` between occurrences of `c`.
pub fn split_chars(s: &Vec<char>, c: char) -> (r: Vec<String>)
    ensures
        texts(r@) == split(s@, c),
{
    let mut out: Vec<String> = Vec::new();
    let mut from: usize = 0;
    let mut i: usize = 0;
    assert(s@.skip(0) =~= s@);
    assert(texts(out@) + split(s@.skip(0), c) =~= split(s@, c));
    while i < s.len()
        invariant
            from <= i <= s@.len(),
            i + first_index(s@.skip(i as int), c) == from + first_index(s@.skip(from as int), c),
            texts(out@) + split(s@.skip(from as int), c) == split(s@, c),
        decreases s@.len() - i,
    {
        let ghost rest = s@.skip(from as int);
        assert(s@.skip(i as int).drop_first() =~= s@.skip(i + 1));
        if s[i] == c {
            let ghost before = out@;
            let piece = string_of(s.as_slice(), from, i);
            assert(piece@ =~= rest.take(i - from));
            assert(rest.skip(i - from + 1) =~= s@.skip(i + 1));
            out.push(piece);
            assert(texts(out@) =~= texts(before).push(piece@));
            assert(texts(out@) + split(s@.skip(i + 1), c) =~= texts(before) + split(rest, c));
            from = i + 1;
        }
        i = i + 1;
    }
    let ghost before = out@;
    let piece = string_of(s.as_slice(), from, i);
    assert(piece@ =~= s@.skip(from as int));
    out.push(piece);
    assert(texts(out@) =~= texts(before) + seq![piece@]);
    out
}

/// Whether `pattern` is a substring of `s`.
pub fn contains_text(s: &str, pattern: &str) -> (r: bool)
    ensures
        r == contains(s@, pattern@),
{
    let text = chars_of(s);
    let wanted = chars_of(pattern);
    let n = text.len();
    let mut at: usize = 0;
    while at <= n && wanted.len() <= n - at
        invariant
            n == text@.len(),
            text@ == s@,
            wanted@ == pattern@,
            at <= text@.len() + 1,
            forall|k: int| 0 <= k < at ==> !occurs_at(s@, pattern@, k),
        decreases text@.len() + 1 - at,
    {
        let mut k: usize = 0;
        while k < wanted.len() && text[at + k] == wanted[k]
            invariant
                k <= wanted@.len(),
                n == text@.len(),
                at + wanted@.len() <= text@.len(),
                forall|j: int| 0 <= j < k ==> text@[at + j] == wanted@[j],
            decreases wanted@.len() - k,
        {
            k = k + 1;
        }
        if k == wanted.len() {
            assert(s@.subrange(at as int, at + pattern@.len()) =~= pattern@);
            assert(occurs_at(s@, pattern@, at as int));
            return true;
        }
        assert(s@.subrange(at as int, at + pattern@.len())[k as int] != pattern@[k as int]);
        at = at + 1;
    }
    false
}

/// A longer run of digits never writes a smaller number.
proof fn lemma_digits_value_grows(s: Seq<char>, n: int)
    requires
        all_digits(s),
        0 <= n <= s.len(),
    ensures
        0 <= digits_value(s.take(n)) <= digits_value(s),
    decreases s.len(),
{
    if n == s.len() {
        assert(s.take(n) =~= s);
        if n > 0 {
            lemma_digits_value_grows(s.drop_last(), n - 1);
            assert(s.drop_last().take(n - 1) =~= s.drop_last());
        }
    } else {
        lemma_digits_value_grows(s.drop_last(), n);
        assert(s.drop_last().take(n) =~= s.take(n));
        assert('0' <= s[s.len() - 1]);
    }
}

/// Reads an unsigned 32-bit number: ASCII digits after at most one plus sign.
pub fn read_u32_text(s: &str) -> (r: Option<u32>)
    ensures
        r == parse_u32(s@),
{
    let text = chars_of(s);
    let start: usize = if text.len() > 0 && text[0] == '+' {
        1
    } else {
        0
    };
    let ghost digits = if s@.len() > 0 && s@[0] == '+' {
        s@.drop_first()
    } else {
        s@
    };
    assert(digits =~= s@.skip(start as int));
    if start == text.len() {
        return None;
    }
    let mut value: u64 = 0;
    let mut i: usize = start;
    assert(digits.take(0) =~= Seq::empty());
    while i < text.len()
        invariant
            start <= i <= text@.len(),
            text@ == s@,
            digits == s@.skip(start as int),
            digits == (if s@.len() > 0 && s@[0] == '+' {
                s@.drop_first()
            } else {
                s@
            }),
            forall|k: int| 0 <= k < i - start ==> '0' <= #[trigger] digits[k] <= '9',
            value == digits_value(digits.take(i - start)),
            value <= u32::MAX,
        decreases text@.len() - i,
    {
        let c = text[i];
        assert(c == digits[i - start]);
        if c < '0' || '9' < c {
            assert(!all_digits(digits));
            return None;
        }
        assert(digits.take(i + 1 - start).drop_last() =~= digits.take(i - start));
        value = value * 10 + (c as u64 - '0' as u64);
        if value > u32::MAX as u64 {
            proof {
                if all_digits(digits) {
                    lemma_digits_value_grows(digits, i + 1 - start);
                }
            }
            return None;
        }
        i = i + 1;
    }
    assert(digits.take(i - start) =~= digits);
    Some(value as u32)
}

/// What `str::to_uppercase` of std makes of text that is not ASCII.
pub uninterp spec fn unicode_upper(s: Seq<char>) -> Seq<char>;

/// The uppercase form of an ASCII character.
pub open spec fn ascii_upper(c: char) -> char {
    if 'a' <= c <= 'z' {
        (c as u32 - 32) as char
    } else {
        c
    }
}

/// The uppercase form of a text.
pub open spec fn upper_text(s: Seq<char>) -> Seq<char> {
    if is_ascii_chars(s) {
        s.map_values(|c: char| ascii_upper(c))
    } else {
        unicode_upper(s)
    }
}

/// Calls `str::to_uppercase` of std. ASCII letters are mapped one by one; what other text is
/// mapped to is named, not stated.
#[verifier::external_body]
pub(crate) fn to_uppercase(s: &str) -> (r: String)
    ensures
        is_ascii_chars(s@) ==> r@ == s@.map_values(|c: char| ascii_upper(c)),
        !is_ascii_chars(s@) ==> r@ == unicode_upper(s@),
{
    s.to_uppercase()
}

proof fn lemma_digit(d: nat)
    requires
        d < 10,
    ensures
        digit_value(digit_char(d)) == d,
        '0' <= digit_char(d) <= '9',
{
}

proof fn lemma_decimal(n: nat)
    ensures
        decimal(n).len() >= 1,
        all_digits(decimal(n)),
        digits_value(decimal(n)) == n,
        n > 0 ==> decimal(n)[0] != '0',
    decreases n,
{
    if n < 10 {
        lemma_digit(n);
        assert(decimal(n).drop_last() =~= Seq::empty());
        assert(digits_value(decimal(n).drop_last()) == 0);
    } else {
        lemma_decimal(n / 10);
        lemma_digit(n % 10);
        assert(decimal(n).drop_last() =~= decimal(n / 10));
    }
}

/// What a number is written as reads back as that number: it is made of digits alone, at least one,
/// and starts with a zero only where it is zero.
pub proof fn law_decimal_reads_back(n: nat)
    ensures
        decimal(n).len() >= 1,
        forall|i: int| 0 <= i < decimal(n).len() ==> '0' <= #[trigger] decimal(n)[i] <= '9',
        digits_value(decimal(n)) == n,
        n > 0 ==> decimal(n)[0] != '0',
        n <= 0xffff_ffff ==> parse_u32(decimal(n)) == Some(n as u32),
        n <= 0xffff_ffff ==> parse_u32(seq!['+'] + decimal(n)) == Some(n as u32),
        n > 0xffff_ffff ==> parse_u32(decimal(n)) is None,
{
    lemma_decimal(n);
    assert('0' <= decimal(n)[0]);
    assert((seq!['+'] + decimal(n)).drop_first() =~= decimal(n));
}

/// Nothing is read as a number but digits after at most one plus sign.
pub proof fn law_only_digits_are_a_number(s: Seq<char>, i: int)
    requires
        0 <= i < s.len(),
        !('0' <= s[i] <= '9'),
        i > 0 || s[0] != '+',
    ensures
        parse_u32(s) is None,
        parse_u32(Seq::empty()) is None,
        parse_u32(seq!['+']) is None,
{
    if s[0] == '+' {
        assert(s.drop_first()[i - 1] == s[i]);
    }
    assert(seq!['+'].drop_first() =~= Seq::<char>::empty());
}

/// Graphic ASCII characters are no whitespace; the blank, the tab and the line breaks are.
pub proof fn law_white_space(c: char)
    ensures
        '!' <= c <= '~' ==> !is_white_space(c),
        c == ' ' || c == '\t' || c == '\n' || c == '\r' ==> is_white_space(c),
{
}

/// Whether a text holds whitespace alone.
pub open spec fn blank(s: Seq<char>) -> bool {
    forall|i: int| 0 <= i < s.len() ==> is_white_space(#[trigger] s[i])
}

proof fn lemma_trim_start(left: Seq<char>, s: Seq<char>)
    requires
        blank(left),
        s.len() > 0 ==> !is_white_space(s[0]),
    ensures
        trim_start(left + s) == s,
    decreases left.len(),
{
    if left.len() > 0 {
        assert(is_white_space(left[0]));
        assert((left + s).drop_first() =~= left.drop_first() + s);
        lemma_trim_start(left.drop_first(), s);
    } else {
        assert(left + s =~= s);
    }
}

proof fn lemma_trim_end(s: Seq<char>, right: Seq<char>)
    requires
        blank(right),
        s.len() > 0 ==> !is_white_space(s.last()),
    ensures
        trim_end(s + right) == s,
    decreases right.len(),
{
    if right.len() > 0 {
        assert(is_white_space(right.last()));
        assert((s + right).drop_last() =~= s + right.drop_last());
        lemma_trim_end(s, right.drop_last());
    } else {
        assert(s + right =~= s);
    }
}

/// Trimming takes away all whitespace at both ends of a text and nothing else.
pub proof fn law_trim_takes_the_ends(left: Seq<char>, s: Seq<char>, right: Seq<char>)
    requires
        blank(left),
        blank(right),
        s.len() > 0 ==> !is_white_space(s[0]) && !is_white_space(s.last()),
    ensures
        trim(left + s + right) == s,
{
    if s.len() > 0 {
        assert(left + s + right =~= left + (s + right));
        lemma_trim_start(left, s + right);
        lemma_trim_end(s, right);
    } else {
        assert(left + s + right =~= (left + right) + s);
        lemma_trim_start(left + right, s);
        lemma_trim_end(s, Seq::empty());
        assert(s + Seq::empty() =~= s);
    }
}

/// Taking away what repeats at the end takes away the whole run and nothing else.
pub proof fn law_strip_trailing_takes_the_run(s: Seq<char>, c: char, run: Seq<char>)
    requires
        s.len() > 0 ==> s.last() != c,
        forall|i: int| 0 <= i < run.len() ==> #[trigger] run[i] == c,
    ensures
        strip_trailing(s + run, c) == s,
    decreases run.len(),
{
    if run.len() > 0 {
        assert((s + run).drop_last() =~= s + run.drop_last());
        law_strip_trailing_takes_the_run(s, c, run.drop_last());
    } else {
        assert(s + run =~= s);
    }
}

/// Whether a text holds no whitespace.
pub open spec fn solid(s: Seq<char>) -> bool {
    forall|i: int| 0 <= i < s.len() ==> !is_white_space(#[trigger] s[i])
}

proof fn lemma_word_len_concat(s: Seq<char>, gap: char, rest: Seq<char>)
    requires
        is_white_space(gap),
    ensures
        word_len(s + seq![gap] + rest) == word_len(s),
        word_len(s) <= s.len(),
    decreases s.len(),
{
    if s.len() > 0 && !is_white_space(s[0]) {
        assert((s + seq![gap] + rest).drop_first() =~= s.drop_first() + seq![gap] + rest);
        lemma_word_len_concat(s.drop_first(), gap, rest);
    }
}

/// A whitespace character separates: the words of a text are those before it and then those after
/// it.
pub proof fn law_white_space_separates_words(before: Seq<char>, gap: char, after: Seq<char>)
    requires
        is_white_space(gap),
    ensures
        words(before + seq![gap] + after) == words(before) + words(after),
    decreases before.len(),
{
    let s = before + seq![gap] + after;
    if before.len() == 0 {
        assert(s.drop_first() =~= after);
        assert(words(before) + words(after) =~= words(after));
    } else if is_white_space(before[0]) {
        assert(s.drop_first() =~= before.drop_first() + seq![gap] + after);
        law_white_space_separates_words(before.drop_first(), gap, after);
    } else {
        let n = word_len(before);
        lemma_word_len_concat(before, gap, after);
        assert(s.take(n as int) =~= before.take(n as int));
        assert(s.skip(n as int) =~= before.skip(n as int) + seq![gap] + after);
        law_white_space_separates_words(before.skip(n as int), gap, after);
        assert(words(s) =~= words(before) + words(after));
    }
}

proof fn lemma_solid_word_len(s: Seq<char>)
    requires
        solid(s),
    ensures
        word_len(s) == s.len(),
    decreases s.len(),
{
    if s.len() > 0 {
        assert(!is_white_space(s[0]));
        lemma_solid_word_len(s.drop_first());
    }
}

/// A text without whitespace is one word; the empty text has none.
pub proof fn law_solid_text_is_one_word(s: Seq<char>)
    requires
        solid(s),
    ensures
        s.len() > 0 ==> words(s) == seq![s],
        s.len() == 0 ==> words(s) == Seq::<Seq<char>>::empty(),
{
    if s.len() > 0 {
        assert(!is_white_space(s[0]));
        lemma_solid_word_len(s);
        assert(s.take(s.len() as int) =~= s);
        assert(s.skip(s.len() as int) =~= Seq::<char>::empty());
        assert(words(s.skip(s.len() as int)) =~= Seq::<Seq<char>>::empty());
        assert(words(s) =~= seq![s]);
    }
}

proof fn lemma_first_index(s: Seq<char>, c: char, rest: Seq<char>)
    ensures
        first_index(s, c) <= s.len(),
        first_index(s, c) < s.len() ==> s[first_index(s, c) as int] == c,
        first_index(s + seq![c] + rest, c) == first_index(s, c),
        !s.contains(c) ==> first_index(s, c) == s.len(),
    decreases s.len(),
{
    if s.len() > 0 && s[0] != c {
        let tail = s.drop_first();
        assert((s + seq![c] + rest).drop_first() =~= tail + seq![c] + rest);
        lemma_first_index(tail, c, rest);
        if !s.contains(c) {
            assert forall|i: int| 0 <= i < tail.len() implies #[trigger] tail[i] != c by {
                assert(tail[i] == s[i + 1]);
            }
        }
    } else if s.len() > 0 {
        assert(s.contains(s[0]));
    }
}

/// A separator splits: the pieces of a text are those before it and then those after it.
pub proof fn law_split_at_a_separator(before: Seq<char>, c: char, after: Seq<char>)
    ensures
        split(before + seq![c] + after, c) == split(before, c) + split(after, c),
    decreases before.len(),
{
    let s = before + seq![c] + after;
    let i = first_index(before, c);
    lemma_first_index(before, c, after);
    if i >= before.len() {
        assert(s.take(i as int) =~= before);
        assert(s.skip(i as int + 1) =~= after);
        assert(split(s, c) =~= split(before, c) + split(after, c));
    } else {
        let rest = before.skip(i as int + 1);
        assert(s.take(i as int) =~= before.take(i as int));
        assert(s.skip(i as int + 1) =~= rest + seq![c] + after);
        law_split_at_a_separator(rest, c, after);
        assert(split(s, c) =~= split(before, c) + split(after, c));
    }
}

/// A text without the separator is one piece.
pub proof fn law_text_without_a_separator_is_one_piece(s: Seq<char>, c: char)
    requires
        !s.contains(c),
    ensures
        split(s, c) == seq![s],
{
    lemma_first_index(s, c, Seq::empty());
}

/// A text holds a pattern exactly if something can be put before it and after it that makes the
/// text.
pub proof fn law_contains_means_a_part(s: Seq<char>, pattern: Seq<char>)
    ensures
        contains(s, pattern) <==> exists|before: Seq<char>, after: Seq<char>|
            s == #[trigger] (before + pattern + after),
{
    if contains(s, pattern) {
        let at = choose|at: int| occurs_at(s, pattern, at);
        let before = s.take(at);
        let after = s.skip(at + pattern.len());
        assert(s =~= before + pattern + after);
    }
    if exists|before: Seq<char>, after: Seq<char>| s == #[trigger] (before + pattern + after) {
        let (before, after) = choose|before: Seq<char>, after: Seq<char>|
            s == #[trigger] (before + pattern + after);
        assert(s.subrange(before.len() as int, before.len() as int + pattern.len()) =~= pattern);
        assert(occurs_at(s, pattern, before.len() as int));
    }
}

/// The first word of a text stands behind its leading blanks and reaches up to the next blank; the
/// other words are those of what follows.
pub proof fn law_first_word(gap: Seq<char>, word: Seq<char>, rest: Seq<char>)
    requires
        blank(gap),
        word.len() > 0,
        solid(word),
        rest.len() > 0 ==> is_white_space(rest[0]),
    ensures
        words(gap + word + rest) == seq![word] + words(rest),
    decreases gap.len(),
{
    let all = gap + word + rest;
    if gap.len() > 0 {
        assert(is_white_space(gap[0]));
        assert(all.drop_first() =~= gap.drop_first() + word + rest);
        law_first_word(gap.drop_first(), word, rest);
    } else {
        law_solid_text_is_one_word(word);
        if rest.len() > 0 {
            assert(all =~= word + seq![rest[0]] + rest.drop_first());
            law_white_space_separates_words(word, rest[0], rest.drop_first());
        } else {
            assert(all =~= word);
            assert(seq![word] + words(rest) =~= seq![word]);
        }
    }
}

proof fn lemma_trim_start_keeps_words(s: Seq<char>)
    ensures
        words(trim_start(s)) == words(s),
    decreases s.len(),
{
    if s.len() > 0 && is_white_space(s[0]) {
        lemma_trim_start_keeps_words(s.drop_first());
    }
}

proof fn lemma_trim_end_keeps_words(s: Seq<char>)
    ensures
        words(trim_end(s)) == words(s),
    decreases s.len(),
{
    if s.len() > 0 && is_white_space(s.last()) {
        lemma_trim_end_keeps_words(s.drop_last());
        assert(s =~= s.drop_last() + seq![s.last()] + Seq::<char>::empty());
        law_white_space_separates_words(s.drop_last(), s.last(), Seq::empty());
        assert(words(s.drop_last()) + words(Seq::<char>::empty()) =~= words(s.drop_last()));
    }
}

/// Trimming a text keeps its words.
pub proof fn law_trim_keeps_words(s: Seq<char>)
    ensures
        words(trim(s)) == words(s),
{
    lemma_trim_start_keeps_words(s);
    lemma_trim_end_keeps_words(trim_start(s));
}

/// A text of blanks has no word.
pub proof fn law_blank_text_has_no_word(s: Seq<char>)
    requires
        blank(s),
    ensures
        words(s) == Seq::<Seq<char>>::empty(),
    decreases s.len(),
{
    if s.len() > 0 {
        assert(is_white_space(s[0]));
        law_blank_text_has_no_word(s.drop_first());
    }
}

/// Whether a text is a word of capital letters, with some of them or none written small.
pub open spec fn spells(s: Seq<char>, capitals: Seq<char>) -> bool {
    &&& s.len() == capitals.len()
    &&& forall|i: int|
        0 <= i < s.len() ==> {
            &&& 'A' <= #[trigger] capitals[i] <= 'Z'
            &&& s[i] == capitals[i] || s[i] as u32 == capitals[i] as u32 + 32
        }
}

proof fn lemma_capital(c: char, capital: char)
    requires
        'A' <= capital <= 'Z',
        c == capital || c as u32 == capital as u32 + 32,
    ensures
        ascii_upper(c) == capital,
        '\0' <= c <= '\u{7f}',
        !is_white_space(c),
{
}

/// A word reads in capitals as the word that it spells, and holds no blank.
pub proof fn law_capitals_of_a_spelling(s: Seq<char>, capitals: Seq<char>)
    requires
        spells(s, capitals),
    ensures
        upper_text(s) == capitals,
        solid(s),
{
    assert forall|i: int| 0 <= i < s.len() implies {
        &&& ascii_upper(#[trigger] s[i]) == capitals[i]
        &&& '\0' <= s[i] <= '\u{7f}'
        &&& !is_white_space(s[i])
    } by {
        assert('A' <= capitals[i] <= 'Z');
        lemma_capital(s[i], capitals[i]);
    }
    assert(is_ascii_chars(s));
    assert(upper_text(s) =~= capitals);
}

/// What stands before the first separator is not touched by splitting: a text without one in front
/// only makes the first piece longer.
pub proof fn law_split_keeps_what_comes_first(start: Seq<char>, s: Seq<char>, c: char)
    requires
        !start.contains(c),
    ensures
        split(start + s, c).len() > 0,
        split(s, c).len() > 0,
        split(start + s, c)[0] == start + split(s, c)[0],
{
    lemma_first_index_shift(start, s, c);
    lemma_first_index(s, c, Seq::empty());
    let i = first_index(s, c);
    assert((start + s).take((start.len() + i) as int) =~= start + s.take(i as int));
}

proof fn lemma_first_index_shift(start: Seq<char>, s: Seq<char>, c: char)
    requires
        !start.contains(c),
    ensures
        first_index(start + s, c) == start.len() + first_index(s, c),
    decreases start.len(),
{
    if start.len() > 0 {
        let rest = start.drop_first();
        assert(start.contains(start[0]));
        assert forall|i: int| 0 <= i < rest.len() implies #[trigger] rest[i] != c by {
            assert(rest[i] == start[i + 1]);
        }
        lemma_first_index_shift(rest, s, c);
        assert((start + s).drop_first() =~= rest + s);
    } else {
        assert(start + s =~= s);
    }
}

} // verus!
