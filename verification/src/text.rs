//! Character-level helpers shared by the scanners and the evaluators.
//!
//! Text is handled as sequences of characters: a `String` or `&str` is viewed
//! as `Seq<char>`, and the executable code works on `Vec<char>`.

use vstd::prelude::*;

verus! {
/// The characters of `s`, in order.
pub fn chars_of(s: &str) -> (r: Vec<char>)
    ensures
        r@ == s@,
{
    let mut out: Vec<char> = Vec::new();
    for c in it: s.chars()
        invariant
            it.seq() == s@,
            out@ == s@.take(it.index() as int),
    {
        out.push(c);
    }
    out
}

/// `String`'s `FromIterator<char>`: the string made of exactly the given
/// characters, in order.
#[verifier::external_body]
pub(crate) fn string_of(chars: &[char]) -> (r: String)
    ensures
        r@ == chars@,
{
    chars.iter().collect()
}

/// Appends the characters of `tail` to `out`.
pub fn append_chars(out: &mut Vec<char>, tail: &[char])
    ensures
        final(out)@ == old(out)@ + tail@,
{
    let mut i: usize = 0;
    while i < tail.len()
        invariant
            i <= tail.len(),
            out@ == old(out)@ + tail@.take(i as int),
        decreases tail.len() - i,
    {
        out.push(tail[i]);
        i += 1;
    }
}

/// The text that the `Debug` of `str` writes for a text: the text between
/// double quotes, with the characters escaped that cannot stand there as
/// they are.
pub uninterp spec fn debug_quoted(text: Seq<char>) -> Seq<char>;

/// The `Debug` text of a `str`.
#[verifier::external_body]
pub(crate) fn quoted(text: &str) -> (r: String)
    ensures
        r@ == debug_quoted(text@),
{
    format!("{:?}", text)
}

/// Whether `s` begins with `prefix`.
pub fn has_prefix(s: &[char], prefix: &str) -> (r: bool)
    ensures
        r == starts_with(s@, prefix@),
{
    let p = chars_of(prefix);
    matches_at(s, &p, 0)
}

/// Appends the characters of `tail` to `out`.
pub fn push_text(out: &mut Vec<char>, tail: &str)
    ensures
        final(out)@ == old(out)@ + tail@,
{
    let chars = chars_of(tail);
    append_chars(out, &chars);
}

/// The characters of `s` from `from` up to, not including, `to`.
pub fn slice_chars(s: &[char], from: usize, to: usize) -> (r: Vec<char>)
    requires
        from <= to <= s.len(),
    ensures
        r@ == s@.subrange(from as int, to as int),
{
    let mut out: Vec<char> = Vec::new();
    let mut i: usize = from;
    while i < to
        invariant
            from <= i <= to <= s.len(),
            out@ == s@.subrange(from as int, i as int),
        decreases to - i,
    {
        out.push(s[i]);
        i += 1;
    }
    out
}

/// Whether two character sequences are the same.
pub fn same_chars(a: &[char], b: &[char]) -> (r: bool)
    ensures
        r == (a@ == b@),
{
    if a.len() != b.len() {
        return false;
    }
    let mut i: usize = 0;
    while i < a.len()
        invariant
            i <= a.len(),
            a.len() == b.len(),
            a@.take(i as int) == b@.take(i as int),
        decreases a.len() - i,
    {
        if a[i] != b[i] {
            return false;
        }
        i += 1;
    }
    assert(a@.take(a@.len() as int) == a@);
    assert(b@.take(b@.len() as int) == b@);
    true
}

/// Whether two texts are the same.
pub fn same_text(a: &str, b: &str) -> (r: bool)
    ensures
        r == (a@ == b@),
{
    same_chars(&chars_of(a), &chars_of(b))
}

/// Whether `pattern` occurs in `s` starting at position `at`.
pub open spec fn occurs_at(s: Seq<char>, pattern: Seq<char>, at: int) -> bool {
    &&& 0 <= at
    &&& at + pattern.len() <= s.len()
    &&& s.subrange(at, at + pattern.len()) == pattern
}

/// Whether `pattern` occurs in `s` at position `at`.
pub fn matches_at(s: &[char], pattern: &[char], at: usize) -> (r: bool)
    ensures
        r == occurs_at(s@, pattern@, at as int),
{
    if at > s.len() || pattern.len() > s.len() - at {
        return false;
    }
    let mut i: usize = 0;
    while i < pattern.len()
        invariant
            i <= pattern.len(),
            at + pattern.len() <= s.len(),
            s@.subrange(at as int, at + i) == pattern@.take(i as int),
        decreases pattern.len() - i,
    {
        if s[at + i] != pattern[i] {
            return false;
        }
        i += 1;
    }
    assert(pattern@.take(pattern@.len() as int) == pattern@);
    true
}

/// Whether `s` begins with `prefix`.
pub open spec fn starts_with(s: Seq<char>, prefix: Seq<char>) -> bool {
    occurs_at(s, prefix, 0)
}

/// The position of the first occurrence of `pattern` in `s` at or after
/// `from`, if there is one.
pub open spec fn first_occurrence_from(s: Seq<char>, pattern: Seq<char>, from: int) -> Option<int>
    decreases s.len() - from,
{
    if from < 0 || from > s.len() {
        None
    } else if occurs_at(s, pattern, from) {
        Some(from)
    } else if from == s.len() {
        None
    } else {
        first_occurrence_from(s, pattern, from + 1)
    }
}

/// The position of the first occurrence of `pattern` in `s`, if there is
/// one.
pub open spec fn first_occurrence(s: Seq<char>, pattern: Seq<char>) -> Option<int> {
    first_occurrence_from(s, pattern, 0)
}

/// The first occurrence at or after `from` is an occurrence, and there is
/// none between `from` and it; where there is no first, there is none at or
/// after `from`.
pub proof fn lemma_first_occurrence_from(s: Seq<char>, pattern: Seq<char>, from: int)
    requires
        0 <= from,
    ensures
        match first_occurrence_from(s, pattern, from) {
            Some(at) => {
                &&& from <= at
                &&& occurs_at(s, pattern, at)
                &&& forall|j: int| from <= j < at ==> !occurs_at(s, pattern, j)
            },
            None => forall|j: int| from <= j ==> !occurs_at(s, pattern, j),
        },
    decreases s.len() - from,
{
    if from < s.len() && !occurs_at(s, pattern, from) {
        lemma_first_occurrence_from(s, pattern, from + 1);
    }
}

/// The position of the first occurrence of `pattern` in `s`.
pub fn find_chars(s: &[char], pattern: &[char]) -> (r: Option<usize>)
    ensures
        match r {
            Some(at) => {
                &&& first_occurrence(s@, pattern@) == Some(at as int)
                &&& occurs_at(s@, pattern@, at as int)
                &&& forall|j: int| 0 <= j < at ==> !occurs_at(s@, pattern@, j)
            },
            None => {
                &&& first_occurrence(s@, pattern@) is None
                &&& forall|j: int| !occurs_at(s@, pattern@, j)
            },
        },
{
    let mut i: usize = 0;
    while i <= s.len()
        invariant
            i <= s.len() + 1,
            first_occurrence(s@, pattern@) == first_occurrence_from(s@, pattern@, i as int),
        decreases s.len() + 1 - i,
    {
        proof {
            lemma_first_occurrence_from(s@, pattern@, 0);
        }
        if matches_at(s, pattern, i) {
            return Some(i);
        }
        if i == s.len() {
            return None;
        }
        i += 1;
    }
    proof {
        lemma_first_occurrence_from(s@, pattern@, 0);
    }
    None
}

/// Whether `char::is_whitespace` holds of a character: whether it has the
/// Unicode property White_Space.
pub uninterp spec fn unicode_whitespace(c: char) -> bool;

/// `char::is_whitespace`.
#[verifier::external_body]
pub(crate) fn is_space(c: char) -> (r: bool)
    ensures
        r == unicode_whitespace(c),
{
    c.is_whitespace()
}

/// `s` without the white space at its beginning.
pub open spec fn trim_start(s: Seq<char>) -> Seq<char>
    decreases s.len(),
{
    if s.len() > 0 && unicode_whitespace(s[0]) {
        trim_start(s.drop_first())
    } else {
        s
    }
}

/// `s` without the white space at its end.
pub open spec fn trim_end(s: Seq<char>) -> Seq<char>
    decreases s.len(),
{
    if s.len() > 0 && unicode_whitespace(s.last()) {
        trim_end(s.drop_last())
    } else {
        s
    }
}

/// `s` without the white space at its beginning and at its end.
pub open spec fn trim(s: Seq<char>) -> Seq<char> {
    trim_end(trim_start(s))
}

/// Trimming does not make a text longer.
pub proof fn lemma_trim_len(s: Seq<char>)
    ensures
        trim_start(s).len() <= s.len(),
        trim_end(s).len() <= s.len(),
        trim(s).len() <= s.len(),
    decreases s.len(),
{
    if s.len() > 0 {
        lemma_trim_len(s.drop_first());
        lemma_trim_len(s.drop_last());
    }
    lemma_trim_end_len(trim_start(s));
}

proof fn lemma_trim_end_len(s: Seq<char>)
    ensures
        trim_end(s).len() <= s.len(),
    decreases s.len(),
{
    if s.len() > 0 {
        lemma_trim_end_len(s.drop_last());
    }
}

/// A text that neither begins nor ends with white space is trimmed to
/// itself.
pub proof fn lemma_trim_identity(s: Seq<char>)
    requires
        s.len() > 0 ==> !unicode_whitespace(s[0]) && !unicode_whitespace(s.last()),
    ensures
        trim(s) == s,
{
}

/// `s` without the white space at its beginning and at its end.
pub fn trim_chars(s: &[char]) -> (r: Vec<char>)
    ensures
        r@ == trim(s@),
{
    let mut from: usize = 0;
    assert(s@.subrange(0, s@.len() as int) == s@);
    while from < s.len() && is_space(s[from])
        invariant
            from <= s.len(),
            trim_start(s@) == trim_start(s@.subrange(from as int, s@.len() as int)),
        decreases s.len() - from,
    {
        assert(s@.subrange(from as int, s@.len() as int).drop_first() == s@.subrange(
            from + 1,
            s@.len() as int,
        ));
        from += 1;
    }
    let ghost started = s@.subrange(from as int, s@.len() as int);
    let mut to: usize = s.len();
    while to > from && is_space(s[to - 1])
        invariant
            from <= to <= s.len(),
            started == s@.subrange(from as int, s@.len() as int),
            trim_end(started) == trim_end(s@.subrange(from as int, to as int)),
        decreases to,
    {
        assert(s@.subrange(from as int, to as int).drop_last() == s@.subrange(
            from as int,
            to - 1,
        ));
        to -= 1;
    }
    slice_chars(s, from, to)
}

/// Whether `c` is one of the ten decimal digits.
pub open spec fn is_digit(c: char) -> bool {
    '0' as int <= c as int <= '9' as int
}

/// The digit that `c` stands for.
pub open spec fn digit_value(c: char) -> int {
    c as int - '0' as int
}

/// The character that writes the digit `d`.
pub open spec fn digit_char(d: int) -> char {
    (d + '0' as int) as char
}

/// The decimal notation of `n`, without sign or leading zeros.
pub open spec fn decimal_text(n: nat) -> Seq<char>
    decreases n,
{
    if n < 10 {
        seq![digit_char(n as int)]
    } else {
        decimal_text(n / 10).push(digit_char((n % 10) as int))
    }
}

/// Appends the decimal notation of `n` to `out`.
pub fn push_decimal(out: &mut Vec<char>, n: u64)
    ensures
        final(out)@ == old(out)@ + decimal_text(n as nat),
    decreases n,
{
    if n >= 10 {
        push_decimal(out, n / 10);
    }
    let d: u8 = (n % 10) as u8;
    let c: char = (48u8 + d) as char;
    out.push(c);
}

/// Appends the decimal notation of `n` to `out`.
pub fn push_wide_decimal(out: &mut Vec<char>, n: u128)
    ensures
        final(out)@ == old(out)@ + decimal_text(n as nat),
    decreases n,
{
    if n >= 10 {
        push_wide_decimal(out, n / 10);
    }
    let d: u8 = (n % 10) as u8;
    let c: char = (48u8 + d) as char;
    out.push(c);
}

/// The decimal notation of `n`.
pub fn wide_decimal_chars(n: u128) -> (r: Vec<char>)
    ensures
        r@ == decimal_text(n as nat),
{
    let mut out: Vec<char> = Vec::new();
    push_wide_decimal(&mut out, n);
    out
}

/// The decimal notation of `n`.
pub fn decimal_chars(n: u64) -> (r: Vec<char>)
    ensures
        r@ == decimal_text(n as nat),
{
    let mut out: Vec<char> = Vec::new();
    push_decimal(&mut out, n);
    out
}

/// The decimal notation of an integer: `-` before the digits of a negative
/// one.
pub open spec fn signed_decimal_text(n: int) -> Seq<char> {
    if n < 0 {
        seq!['-'] + decimal_text((-n) as nat)
    } else {
        decimal_text(n as nat)
    }
}

/// The decimal notation of `n`.
pub fn signed_decimal_chars(n: i64) -> (r: Vec<char>)
    ensures
        r@ == signed_decimal_text(n as int),
{
    if n >= 0 {
        decimal_chars(n as u64)
    } else {
        let magnitude: u64 = (-(n + 1)) as u64 + 1;
        let mut out: Vec<char> = Vec::new();
        out.push('-');
        push_decimal(&mut out, magnitude);
        out
    }
}

/// Whether every character of `s` is a decimal digit.
pub open spec fn all_digits(s: Seq<char>) -> bool {
    forall|i: int| 0 <= i < s.len() ==> is_digit(#[trigger] s[i])
}

/// The number that a sequence of decimal digits writes.
pub open spec fn digits_value(s: Seq<char>) -> nat
    decreases s.len(),
{
    if s.len() == 0 {
        0
    } else {
        (digits_value(s.drop_last()) * 10 + digit_value(s.last())) as nat
    }
}

/// The index that a text writes: an optional `+`, then one or more decimal
/// digits, with a value that an index can hold.
pub open spec fn index_value(s: Seq<char>) -> Option<nat> {
    let digits = if s.len() > 0 && s[0] == '+' {
        s.subrange(1, s.len() as int)
    } else {
        s
    };
    if digits.len() > 0 && all_digits(digits) && digits_value(digits) <= usize::MAX {
        Some(digits_value(digits))
    } else {
        None
    }
}

/// A longer run of digits does not write a smaller number.
pub proof fn lemma_digits_value_grows(s: Seq<char>, i: int, j: int)
    requires
        0 <= i <= j <= s.len(),
        all_digits(s),
    ensures
        digits_value(s.take(i)) <= digits_value(s.take(j)),
    decreases j - i,
{
    if i < j {
        lemma_digits_value_grows(s, i, j - 1);
        assert(s.take(j).drop_last() == s.take(j - 1));
    }
}

/// The index that `s` writes.
pub fn parse_index(s: &[char]) -> (r: Option<usize>)
    ensures
        match r {
            Some(n) => index_value(s@) == Some(n as nat),
            None => index_value(s@) is None,
        },
{
    let start: usize = if s.len() > 0 && s[0] == '+' {
        1
    } else {
        0
    };
    let ghost digits = if s@.len() > 0 && s@[0] == '+' {
        s@.subrange(1, s@.len() as int)
    } else {
        s@
    };
    if start == s.len() {
        return None;
    }
    let mut value: usize = 0;
    let mut i: usize = start;
    while i < s.len()
        invariant
            start <= i <= s.len(),
            digits == s@.subrange(start as int, s@.len() as int),
            digits == if s@.len() > 0 && s@[0] == '+' {
                s@.subrange(1, s@.len() as int)
            } else {
                s@
            },
            all_digits(digits.take(i - start)),
            value == digits_value(digits.take(i - start)),
        decreases s.len() - i,
    {
        let c = s[i];
        assert(c == digits[i - start]);
        if !(c >= '0' && c <= '9') {
            return None;
        }
        let d: usize = (c as u32 - '0' as u32) as usize;
        assert(digits.take(i - start + 1).drop_last() == digits.take(i - start));
        assert(all_digits(digits.take(i - start + 1))) by {
            assert forall|k: int| 0 <= k < i - start + 1 implies is_digit(
                #[trigger] digits.take(i - start + 1)[k],
            ) by {}
        }
        if value > (usize::MAX - d) / 10 {
            proof {
                assert(value * 10 + d > usize::MAX) by (nonlinear_arith)
                    requires
                        value > (usize::MAX - d) / 10,
                        0 <= d < 10,
                ;
                if all_digits(digits) {
                    lemma_digits_value_grows(digits, i - start + 1, digits.len() as int);
                    assert(digits.take(digits.len() as int) == digits);
                }
            }
            return None;
        }
        assert(value * 10 + d <= usize::MAX) by (nonlinear_arith)
            requires
                value <= (usize::MAX - d) / 10,
                0 <= d < 10,
        ;
        value = value * 10 + d;
        i += 1;
    }
    assert(digits.take(digits.len() as int) == digits);
    Some(value)
}

/// Whether `char::is_alphanumeric` holds of a character: whether it is a
/// letter or a number in Unicode.
pub uninterp spec fn unicode_alphanumeric(c: char) -> bool;

/// `char::is_alphanumeric`.
#[verifier::external_body]
pub(crate) fn is_alphanumeric_char(c: char) -> (r: bool)
    ensures
        r == unicode_alphanumeric(c),
{
    c.is_alphanumeric()
}

/// What `str::to_lowercase` makes of a text.
pub uninterp spec fn lowercase_text(s: Seq<char>) -> Seq<char>;

/// `str::to_lowercase`.
#[verifier::external_body]
pub(crate) fn lowercase(s: &str) -> (r: String)
    ensures
        r@ == lowercase_text(s@),
{
    s.to_lowercase()
}

/// What `str::to_uppercase` makes of a text.
pub uninterp spec fn uppercase_text(s: Seq<char>) -> Seq<char>;

/// `str::to_uppercase`.
#[verifier::external_body]
pub(crate) fn uppercase(s: &str) -> (r: String)
    ensures
        r@ == uppercase_text(s@),
{
    s.to_uppercase()
}

/// `s` without the occurrences of `c` at its beginning.
pub open spec fn strip_start(s: Seq<char>, c: char) -> Seq<char>
    decreases s.len(),
{
    if s.len() > 0 && s[0] == c {
        strip_start(s.drop_first(), c)
    } else {
        s
    }
}

/// `s` without the occurrences of `c` at its end.
pub open spec fn strip_end(s: Seq<char>, c: char) -> Seq<char>
    decreases s.len(),
{
    if s.len() > 0 && s.last() == c {
        strip_end(s.drop_last(), c)
    } else {
        s
    }
}

/// `s` without the occurrences of `c` at its beginning and at its end.
pub open spec fn strip(s: Seq<char>, c: char) -> Seq<char> {
    strip_end(strip_start(s, c), c)
}

/// `s` without the occurrences of `c` at its beginning.
pub fn strip_start_chars(s: &[char], c: char) -> (r: Vec<char>)
    ensures
        r@ == strip_start(s@, c),
{
    let mut from: usize = 0;
    assert(s@.subrange(0, s@.len() as int) == s@);
    while from < s.len() && s[from] == c
        invariant
            from <= s.len(),
            strip_start(s@, c) == strip_start(s@.subrange(from as int, s@.len() as int), c),
        decreases s.len() - from,
    {
        assert(s@.subrange(from as int, s@.len() as int).drop_first() == s@.subrange(
            from + 1,
            s@.len() as int,
        ));
        from += 1;
    }
    slice_chars(s, from, s.len())
}

/// `s` without the occurrences of `c` at its beginning and at its end.
pub fn strip_chars(s: &[char], c: char) -> (r: Vec<char>)
    ensures
        r@ == strip(s@, c),
{
    let started = strip_start_chars(s, c);
    let mut to: usize = started.len();
    assert(started@.subrange(0, to as int) == started@);
    while to > 0 && started[to - 1] == c
        invariant
            to <= started.len(),
            strip_end(started@, c) == strip_end(started@.subrange(0, to as int), c),
        decreases to,
    {
        assert(started@.subrange(0, to as int).drop_last() == started@.subrange(0, to - 1));
        to -= 1;
    }
    slice_chars(&started, 0, to)
}

/// `s` with each `from` replaced by `to`.
pub open spec fn replaced(s: Seq<char>, from: char, to: char) -> Seq<char> {
    Seq::new(
        s.len(),
        |i: int|
            if s[i] == from {
                to
            } else {
                s[i]
            },
    )
}

/// `s` with each `from` replaced by `to`.
pub fn replace_char(s: &[char], from: char, to: char) -> (r: Vec<char>)
    ensures
        r@ == replaced(s@, from, to),
{
    let mut out: Vec<char> = Vec::new();
    let mut i: usize = 0;
    while i < s.len()
        invariant
            i <= s.len(),
            out@.len() == i,
            forall|k: int|
                0 <= k < i ==> out@[k] == (if s@[k] == from {
                    to
                } else {
                    s@[k]
                }),
        decreases s.len() - i,
    {
        if s[i] == from {
            out.push(to);
        } else {
            out.push(s[i]);
        }
        i += 1;
    }
    out
}

/// The end of the run that begins at `from`: the position of the next
/// character that is white space, for a run of a word, or that is not, for
/// a run of white space; or the end of the text.
pub open spec fn run_end(s: Seq<char>, from: int, of_word: bool) -> int
    decreases s.len() - from,
{
    if from < 0 || from >= s.len() {
        s.len() as int
    } else if unicode_whitespace(s[from]) == of_word {
        from
    } else {
        run_end(s, from + 1, of_word)
    }
}

/// A run ends at or after its beginning, within the text.
pub proof fn lemma_run_end(s: Seq<char>, from: int, of_word: bool)
    requires
        0 <= from <= s.len(),
    ensures
        from <= run_end(s, from, of_word) <= s.len(),
        from < s.len() && unicode_whitespace(s[from]) != of_word ==> from < run_end(
            s,
            from,
            of_word,
        ),
    decreases s.len() - from,
{
    if from < s.len() && unicode_whitespace(s[from]) != of_word {
        lemma_run_end(s, from + 1, of_word);
    }
}

/// The words of the part of `s` that begins at `from`: the runs of
/// characters that are not white space, in order.
pub open spec fn words_from(s: Seq<char>, from: int) -> Seq<Seq<char>>
    decreases s.len() - from,
{
    let start = run_end(s, from, false);
    let stop = run_end(s, start, true);
    if from < 0 || start >= s.len() {
        Seq::empty()
    } else {
        proof {
            lemma_run_end(s, from, false);
            lemma_run_end(s, start, true);
        }
        seq![s.subrange(start, stop)] + words_from(s, stop)
    }
}

/// The words of `s`: the runs of characters that are not white space, in
/// order.
pub open spec fn words(s: Seq<char>) -> Seq<Seq<char>> {
    words_from(s, 0)
}

/// The views of a list of character vectors.
pub open spec fn chars_view(list: Seq<Vec<char>>) -> Seq<Seq<char>> {
    Seq::new(list.len(), |i: int| list[i]@)
}

/// The end of the run that begins at `from`.
fn find_run_end(s: &[char], from: usize, of_word: bool) -> (r: usize)
    requires
        from <= s.len(),
    ensures
        r == run_end(s@, from as int, of_word),
        from <= r <= s.len(),
{
    let mut at: usize = from;
    while at < s.len() && is_space(s[at]) != of_word
        invariant
            from <= at <= s.len(),
            run_end(s@, from as int, of_word) == run_end(s@, at as int, of_word),
        decreases s.len() - at,
    {
        at += 1;
    }
    at
}

/// The words of `s`.
pub fn split_words(s: &[char]) -> (r: Vec<Vec<char>>)
    ensures
        chars_view(r@) == words(s@),
{
    let mut out: Vec<Vec<char>> = Vec::new();
    let mut from: usize = 0;
    while from < s.len()
        invariant
            from <= s.len(),
            words(s@) == chars_view(out@) + words_from(s@, from as int),
        decreases s.len() - from,
    {
        let start = find_run_end(s, from, false);
        if start >= s.len() {
            from = s.len();
        } else {
            let stop = find_run_end(s, start, true);
            proof {
                lemma_run_end(s@, start as int, true);
            }
            let word = slice_chars(s, start, stop);
            out.push(word);
            from = stop;
        }
    }
    out
}

} // verus!
