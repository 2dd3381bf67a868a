//! The notation in which the tool writes a number of seconds: the text
//! that Rust's standard parser of floating-point numbers accepts.
//!
//! ```text
//! Literal  ::= Sign? ( 'inf' | 'infinity' | 'nan' | Number )
//! Number   ::= Decimal Exponent?
//! Decimal  ::= Digit+ | Digit+ '.' Digit* | Digit* '.' Digit+
//! Exponent ::= 'e' Sign? Digit+
//! Sign     ::= '+' | '-'
//! Digit    ::= '0' ... '9'
//! ```
//!
//! Letters count in either case.

use vstd::prelude::*;

verus! {

pub open spec fn is_digit(c: char) -> bool {
    '0' <= c && c <= '9'
}

pub open spec fn is_sign(c: char) -> bool {
    c == '+' || c == '-'
}

/// `c` is the small letter `small` or its capital.
pub open spec fn is_letter(c: char, small: char) -> bool {
    c == small || c as int + 32 == small as int
}

/// Every character of `s` is a digit.
pub open spec fn is_digits(s: Seq<char>) -> bool {
    forall|i: int| 0 <= i < s.len() ==> is_digit(#[trigger] s[i])
}

/// `s` spells `word`, which is written in small letters, in any mix of
/// small letters and capitals.
pub open spec fn spells(s: Seq<char>, word: Seq<char>) -> bool {
    &&& s.len() == word.len()
    &&& forall|i: int| 0 <= i < s.len() ==> is_letter(#[trigger] s[i], word[i])
}

/// `Decimal`: digits alone, or digits with one point before, among or
/// after them.
pub open spec fn is_decimal(s: Seq<char>) -> bool {
    ||| s.len() >= 1 && is_digits(s)
    ||| exists|p: int|
        0 <= p < s.len() && s.len() >= 2 && #[trigger] s[p] == '.' && is_digits(s.take(p))
            && is_digits(s.skip(p + 1))
}

/// `Exponent`: the letter, a sign or none, and at least one digit.
pub open spec fn is_exponent(s: Seq<char>) -> bool {
    &&& s.len() >= 2
    &&& is_letter(s[0], 'e')
    &&& if is_sign(s[1]) {
        s.len() >= 3 && is_digits(s.skip(2))
    } else {
        is_digits(s.skip(1))
    }
}

/// `Number`: a decimal, with an exponent or without.
pub open spec fn is_number(s: Seq<char>) -> bool {
    ||| is_decimal(s)
    ||| exists|e: int|
        0 < e < s.len() && is_letter(#[trigger] s[e], 'e') && is_decimal(s.take(e))
            && is_exponent(s.skip(e))
}

/// One of the three words for what is no finite number.
pub open spec fn is_special(s: Seq<char>) -> bool {
    ||| spells(s, seq!['i', 'n', 'f'])
    ||| spells(s, seq!['n', 'a', 'n'])
    ||| spells(s, seq!['i', 'n', 'f', 'i', 'n', 'i', 't', 'y'])
}

/// What is left of `s` behind its sign, if it has one.
pub open spec fn unsigned(s: Seq<char>) -> Seq<char> {
    if s.len() >= 1 && is_sign(s[0]) {
        s.skip(1)
    } else {
        s
    }
}

/// `Literal`: the whole of `s` is a number in this notation.
pub open spec fn is_literal(s: Seq<char>) -> bool {
    is_special(unsigned(s)) || is_number(unsigned(s))
}

/// Where the run of digits that starts at `from` ends.
spec fn digits_end(s: Seq<char>, from: int) -> int
    decreases s.len() - from,
{
    if 0 <= from < s.len() && is_digit(s[from]) {
        digits_end(s, from + 1)
    } else {
        from
    }
}

/// The run of digits from `from` holds digits only and stops at the end
/// or before something that is no digit.
proof fn lemma_digits_end(s: Seq<char>, from: int)
    requires
        0 <= from <= s.len(),
    ensures
        from <= digits_end(s, from) <= s.len(),
        forall|i: int| from <= i < digits_end(s, from) ==> is_digit(#[trigger] s[i]),
        digits_end(s, from) < s.len() ==> !is_digit(s[digits_end(s, from)]),
    decreases s.len() - from,
{
    if from < s.len() && is_digit(s[from]) {
        lemma_digits_end(s, from + 1);
    }
}

/// A run of digits from `from` that stops at `end` is the run that
/// `digits_end` finds.
proof fn lemma_digits_end_is(s: Seq<char>, from: int, end: int)
    requires
        0 <= from <= end <= s.len(),
        forall|i: int| from <= i < end ==> is_digit(#[trigger] s[i]),
        end < s.len() ==> !is_digit(s[end]),
    ensures
        digits_end(s, from) == end,
{
    lemma_digits_end(s, from);
    let found = digits_end(s, from);
    if found < end {
        assert(is_digit(s[found]));
    }
    if found > end {
        assert(is_digit(s[end]));
    }
}

/// The text from `from` on is all digits exactly where the run of digits
/// from `from` reaches the end.
proof fn lemma_digits_to_the_end(s: Seq<char>, from: int)
    requires
        0 <= from <= s.len(),
    ensures
        is_digits(s.skip(from)) <==> digits_end(s, from) == s.len(),
{
    lemma_digits_end(s, from);
    let rest = s.skip(from);
    if is_digits(rest) {
        assert forall|i: int| from <= i < s.len() implies is_digit(#[trigger] s[i]) by {
            assert(rest[i - from] == s[i]);
        }
        lemma_digits_end_is(s, from, s.len() as int);
    }
    if digits_end(s, from) == s.len() {
        assert forall|i: int| 0 <= i < rest.len() implies is_digit(#[trigger] rest[i]) by {
            assert(rest[i] == s[i + from]);
        }
    }
}

/// How a scan from the left tells a number: digits, a point and more
/// digits if a point follows, at least one digit in all, and then the
/// end or an exponent.
spec fn scans_as_number(s: Seq<char>) -> bool {
    let whole = digits_end(s, 0);
    let pointed = whole < s.len() && s[whole] == '.';
    let end = if pointed {
        digits_end(s, whole + 1)
    } else {
        whole
    };
    let digits = if pointed {
        end - 1
    } else {
        end
    };
    digits >= 1 && (end == s.len() || (is_letter(s[end], 'e') && is_exponent(s.skip(end))))
}

/// A decimal that is followed by the end, or by something that is
/// neither a digit nor a point, is what the scan takes for the mantissa.
proof fn lemma_decimal_prefix(s: Seq<char>, end: int)
    requires
        0 <= end <= s.len(),
        is_decimal(s.take(end)),
        end < s.len() ==> !is_digit(s[end]) && s[end] != '.',
    ensures
        ({
            let whole = digits_end(s, 0);
            let pointed = whole < s.len() && s[whole] == '.';
            &&& end == if pointed {
                digits_end(s, whole + 1)
            } else {
                whole
            }
            &&& if pointed {
                end >= 2
            } else {
                end >= 1
            }
        }),
{
    let head = s.take(end);
    lemma_digits_end(s, 0);
    if head.len() >= 1 && is_digits(head) {
        assert forall|i: int| 0 <= i < end implies is_digit(#[trigger] s[i]) by {
            assert(head[i] == s[i]);
        }
        lemma_digits_end_is(s, 0, end);
    } else {
        let p = choose|p: int|
            0 <= p < head.len() && head.len() >= 2 && #[trigger] head[p] == '.' && is_digits(
                head.take(p),
            ) && is_digits(head.skip(p + 1));
        assert(s[p] == '.');
        assert forall|i: int| 0 <= i < p implies is_digit(#[trigger] s[i]) by {
            assert(head.take(p)[i] == s[i]);
        }
        lemma_digits_end_is(s, 0, p);
        assert forall|i: int| p + 1 <= i < end implies is_digit(#[trigger] s[i]) by {
            assert(head.skip(p + 1)[i - (p + 1)] == s[i]);
        }
        lemma_digits_end_is(s, p + 1, end);
    }
}

/// What the scan takes for the mantissa is a decimal.
proof fn lemma_scanned_prefix(s: Seq<char>)
    ensures
        ({
            let whole = digits_end(s, 0);
            let pointed = whole < s.len() && s[whole] == '.';
            let end = if pointed {
                digits_end(s, whole + 1)
            } else {
                whole
            };
            &&& 0 <= end <= s.len()
            &&& (if pointed {
                end >= 2
            } else {
                end >= 1
            }) ==> is_decimal(s.take(end))
        }),
{
    lemma_digits_end(s, 0);
    let whole = digits_end(s, 0);
    let pointed = whole < s.len() && s[whole] == '.';
    if pointed {
        lemma_digits_end(s, whole + 1);
        let end = digits_end(s, whole + 1);
        let head = s.take(end);
        if end >= 2 {
            assert(head[whole] == '.');
            assert forall|i: int| 0 <= i < head.take(whole).len() implies is_digit(
                #[trigger] head.take(whole)[i],
            ) by {
                assert(head.take(whole)[i] == s[i]);
            }
            assert forall|i: int| 0 <= i < head.skip(whole + 1).len() implies is_digit(
                #[trigger] head.skip(whole + 1)[i],
            ) by {
                assert(head.skip(whole + 1)[i] == s[i + whole + 1]);
            }
        }
    } else {
        let head = s.take(whole);
        assert forall|i: int| 0 <= i < head.len() implies is_digit(#[trigger] head[i]) by {
            assert(head[i] == s[i]);
        }
    }
}

/// The scan from the left accepts the numbers and nothing else.
proof fn lemma_scan_is_number(s: Seq<char>)
    ensures
        scans_as_number(s) == is_number(s),
{
    lemma_scanned_prefix(s);
    lemma_digits_end(s, 0);
    let whole = digits_end(s, 0);
    let pointed = whole < s.len() && s[whole] == '.';
    if pointed {
        lemma_digits_end(s, whole + 1);
    }
    let end = if pointed {
        digits_end(s, whole + 1)
    } else {
        whole
    };
    if scans_as_number(s) {
        if end == s.len() {
            assert(s.take(end) =~= s);
        } else {
            assert(is_letter(s[end], 'e') && is_decimal(s.take(end)));
        }
        assert(is_number(s));
    }
    if is_decimal(s) {
        assert(s.take(s.len() as int) =~= s);
        lemma_decimal_prefix(s, s.len() as int);
        assert(scans_as_number(s));
    } else if is_number(s) {
        let e = choose|e: int|
            0 < e < s.len() && is_letter(#[trigger] s[e], 'e') && is_decimal(s.take(e))
                && is_exponent(s.skip(e));
        lemma_decimal_prefix(s, e);
        assert(scans_as_number(s));
    }
}

/// Whatever is a literal is written in ASCII.
proof fn lemma_literal_is_ascii(s: Seq<char>)
    requires
        is_literal(s),
    ensures
        vstd::utf8::is_ascii_chars(s),
{
    let body = unsigned(s);
    let shift = s.len() - body.len();
    assert forall|i: int| 0 <= i < body.len() implies '\0' <= #[trigger] body[i] <= '\u{7f}' by {
        if is_special(body) {
            assert(is_letter(body[i], 'i') || is_letter(body[i], 'n') || is_letter(body[i], 'f')
                || is_letter(body[i], 'a') || is_letter(body[i], 't') || is_letter(body[i], 'y'));
        } else {
            lemma_scan_is_number(body);
            lemma_digits_end(body, 0);
            let whole = digits_end(body, 0);
            let pointed = whole < body.len() && body[whole] == '.';
            if pointed {
                lemma_digits_end(body, whole + 1);
            }
            let end = if pointed {
                digits_end(body, whole + 1)
            } else {
                whole
            };
            if i < end {
                assert(is_digit(body[i]) || body[i] == '.');
            } else {
                let tail = body.skip(end);
                assert(tail[i - end] == body[i]);
                if i - end >= 2 {
                    if is_sign(tail[1]) {
                        assert(tail.skip(2)[i - end - 2] == body[i]);
                    } else {
                        assert(tail.skip(1)[i - end - 1] == body[i]);
                    }
                } else if i - end == 1 {
                    if !is_sign(tail[1]) {
                        assert(tail.skip(1)[0] == body[i]);
                    }
                }
            }
        }
    }
    assert forall|i: int| 0 <= i < s.len() implies '\0' <= #[trigger] s[i] <= '\u{7f}' by {
        if i >= shift {
            assert(body[i - shift] == s[i]);
        }
    }
}

/// The character at `at`, as a byte.
fn byte_at(text: &str, at: usize) -> (b: u8)
    requires
        text.is_ascii(),
        at < text@.len(),
    ensures
        b as int == text@[at as int] as int,
        b < 128,
{
    text.get_ascii(at)
}

/// The length of an ASCII text.
fn ascii_len(text: &str) -> (n: usize)
    requires
        text.is_ascii(),
    ensures
        n == text@.len(),
{
    proof {
        vstd::string::is_ascii_spec_bytes(text);
    }
    text.as_bytes().len()
}

/// Tells whether the character at `at` is the letter `small`, in either
/// case.
fn letter_at(text: &str, at: usize, small: char) -> (ok: bool)
    requires
        text.is_ascii(),
        at < text@.len(),
        'a' <= small <= 'z',
    ensures
        ok == is_letter(text@[at as int], small),
{
    let b: u8 = byte_at(text, at);
    let wanted: u8 = small as u8;
    b == wanted || b == wanted - 32
}

/// Tells whether the character at `at` is `c`.
fn is_at(text: &str, at: usize, c: char) -> (ok: bool)
    requires
        text.is_ascii(),
        at < text@.len(),
        c <= '\u{7f}',
    ensures
        ok == (text@[at as int] == c),
{
    byte_at(text, at) == c as u8
}

/// Tells whether the character at `at` is a sign.
fn sign_at(text: &str, at: usize) -> (ok: bool)
    requires
        text.is_ascii(),
        at < text@.len(),
    ensures
        ok == is_sign(text@[at as int]),
{
    is_at(text, at, '+') || is_at(text, at, '-')
}

/// Tells whether the character at `at` is a digit.
fn digit_at(text: &str, at: usize) -> (ok: bool)
    requires
        text.is_ascii(),
        at < text@.len(),
    ensures
        ok == is_digit(text@[at as int]),
{
    let b: u8 = byte_at(text, at);
    '0' as u8 <= b && b <= '9' as u8
}

/// Finds the end of the run of digits that starts at `from`.
fn scan_digits(text: &str, from: usize) -> (end: usize)
    requires
        text.is_ascii(),
        from <= text@.len(),
    ensures
        end == digits_end(text@, from as int),
        from <= end <= text@.len(),
{
    let n: usize = ascii_len(text);
    let mut at: usize = from;
    while at < n && digit_at(text, at)
        invariant
            text.is_ascii(),
            n == text@.len(),
            from <= at <= n,
            digits_end(text@, from as int) == digits_end(text@, at as int),
        decreases n - at,
    {
        at = at + 1;
    }
    at
}

/// Tells whether an ASCII text is an exponent.
fn is_exponent_text(text: &str) -> (ok: bool)
    requires
        text.is_ascii(),
    ensures
        ok == is_exponent(text@),
{
    let n: usize = ascii_len(text);
    if n < 2 || !letter_at(text, 0, 'e') {
        return false;
    }
    let from: usize = if sign_at(text, 1) {
        2
    } else {
        1
    };
    if n <= from {
        return false;
    }
    let end: usize = scan_digits(text, from);
    proof {
        lemma_digits_to_the_end(text@, from as int);
    }
    end == n
}

/// Tells whether an ASCII text is a number.
fn is_number_text(text: &str) -> (ok: bool)
    requires
        text.is_ascii(),
    ensures
        ok == is_number(text@),
{
    proof {
        lemma_scan_is_number(text@);
    }
    let n: usize = ascii_len(text);
    let whole: usize = scan_digits(text, 0);
    let pointed = whole < n && is_at(text, whole, '.');
    let end: usize = if pointed {
        scan_digits(text, whole + 1)
    } else {
        whole
    };
    let digits: usize = if pointed {
        end - 1
    } else {
        end
    };
    if digits < 1 {
        return false;
    }
    if end == n {
        return true;
    }
    if !letter_at(text, end, 'e') {
        return false;
    }
    let tail = text.substring_ascii(end, n);
    assert(tail@ =~= text@.skip(end as int));
    is_exponent_text(tail)
}

/// Tells whether an ASCII text is one of the three words.
fn is_special_text(text: &str) -> (ok: bool)
    requires
        text.is_ascii(),
    ensures
        ok == is_special(text@),
{
    let n: usize = ascii_len(text);
    if n == 3 {
        let inf = letter_at(text, 0, 'i') && letter_at(text, 1, 'n') && letter_at(text, 2, 'f');
        let nan = letter_at(text, 0, 'n') && letter_at(text, 1, 'a') && letter_at(text, 2, 'n');
        inf || nan
    } else if n == 8 {
        letter_at(text, 0, 'i') && letter_at(text, 1, 'n') && letter_at(text, 2, 'f') && letter_at(
            text,
            3,
            'i',
        ) && letter_at(text, 4, 'n') && letter_at(text, 5, 'i') && letter_at(text, 6, 't')
            && letter_at(text, 7, 'y')
    } else {
        false
    }
}

/// Tells whether `text` is a number in this notation.
pub fn is_literal_text(text: &str) -> (ok: bool)
    ensures
        ok == is_literal(text@),
{
    if !text.is_ascii() {
        proof {
            if is_literal(text@) {
                lemma_literal_is_ascii(text@);
            }
        }
        return false;
    }
    let n: usize = ascii_len(text);
    let signed = n >= 1 && sign_at(text, 0);
    let body = if signed {
        text.substring_ascii(1, n)
    } else {
        text
    };
    assert(body@ =~= unsigned(text@));
    is_special_text(body) || is_number_text(body)
}

} // verus!
