//! Character-level building blocks shared by the three grammars: case
//! folding, whitespace trimming, splitting, and decimal numbers.

use crate::error::GrammarError;
use vstd::prelude::*;

verus! {

/// The lower-case form of a character, where that is an ASCII letter: of
/// the capitals `A` to `Z`, and of the Kelvin sign (U+212A), whose lower
/// case is `k`. Every other character is itself: a letter that Unicode
/// lowers to something else is not lowered to ASCII, so with or without
/// its lower case it spoils the identifier or number that holds it.
pub open spec fn lower(c: char) -> char {
    if 'A' <= c && c <= 'Z' {
        ((c as u8 + 32) as u8) as char
    } else if c == '\u{212a}' {
        'k'
    } else {
        c
    }
}

/// `s` with each character folded by [`lower`].
pub open spec fn lowercase(s: Seq<char>) -> Seq<char> {
    Seq::new(s.len(), |i: int| lower(s[i]))
}

/// The characters with the Unicode property `White_Space`.
pub open spec fn is_space(c: char) -> bool {
    ||| ('\u{9}' <= c && c <= '\u{d}')
    ||| c == ' '
    ||| c == '\u{85}'
    ||| c == '\u{a0}'
    ||| c == '\u{1680}'
    ||| ('\u{2000}' <= c && c <= '\u{200a}')
    ||| c == '\u{2028}'
    ||| c == '\u{2029}'
    ||| c == '\u{202f}'
    ||| c == '\u{205f}'
    ||| c == '\u{3000}'
}

/// How many whitespace characters `s` starts with.
pub open spec fn leading(s: Seq<char>) -> nat
    decreases s.len(),
{
    if s.len() > 0 && is_space(s[0]) {
        1 + leading(s.drop_first())
    } else {
        0
    }
}

/// How many whitespace characters `s` ends with.
pub open spec fn trailing(s: Seq<char>) -> nat
    decreases s.len(),
{
    if s.len() > 0 && is_space(s.last()) {
        1 + trailing(s.drop_last())
    } else {
        0
    }
}

/// `s` without its leading and trailing whitespace.
pub open spec fn trim(s: Seq<char>) -> Seq<char> {
    let t = s.skip(leading(s) as int);
    t.take(t.len() - trailing(t))
}

/// The index of the first `c` in `s`, or `s.len()` where there is none.
pub open spec fn first_index(s: Seq<char>, c: char) -> nat
    decreases s.len(),
{
    if s.len() == 0 || s[0] == c {
        0
    } else {
        1 + first_index(s.drop_first(), c)
    }
}

/// The pieces of `s` between occurrences of `sep`; never empty.
pub open spec fn split(s: Seq<char>, sep: char) -> Seq<Seq<char>>
    decreases s.len(),
{
    let p = first_index(s, sep);
    if p >= s.len() {
        seq![s]
    } else {
        seq![s.take(p as int)] + split(s.skip((p + 1) as int), sep)
    }
}

/// A decimal digit.
pub open spec fn is_digit(c: char) -> bool {
    '0' <= c && c <= '9'
}

/// The number that a decimal digit stands for.
pub open spec fn digit_value(c: char) -> nat {
    (c as nat - 48) as nat
}

/// Whether every character is a decimal digit.
pub open spec fn all_digits(s: Seq<char>) -> bool {
    forall|i: int| 0 <= i < s.len() ==> is_digit(#[trigger] s[i])
}

/// The number that a string of decimal digits denotes.
pub open spec fn decimal(s: Seq<char>) -> nat
    decreases s.len(),
{
    if s.len() == 0 {
        0
    } else {
        decimal(s.drop_last()) * 10 + digit_value(s.last())
    }
}

/// `s` without one leading `+`.
pub open spec fn unsigned(s: Seq<char>) -> Seq<char> {
    if s.len() > 0 && s[0] == '+' {
        s.drop_first()
    } else {
        s
    }
}

/// The value of one argument: surrounding whitespace and one leading `+`
/// are ignored, what is left must be one or more decimal digits, and their
/// value must not exceed `max`.
pub open spec fn number(token: Seq<char>, max: u64) -> Result<u64, GrammarError> {
    let d = unsigned(trim(token));
    if d.len() == 0 || !all_digits(d) {
        Err(GrammarError::NonNumeric)
    } else if decimal(d) > max {
        Err(GrammarError::OutOfRange)
    } else {
        Ok(decimal(d) as u64)
    }
}

/// The values of the tokens in order, or the error of the first token that
/// has none.
pub open spec fn numbers(tokens: Seq<Seq<char>>, max: u64) -> Result<Seq<u64>, GrammarError>
    decreases tokens.len(),
{
    if tokens.len() == 0 {
        Ok(Seq::empty())
    } else {
        match number(tokens[0], max) {
            Err(e) => Err(e),
            Ok(v) => match numbers(tokens.drop_first(), max) {
                Err(e) => Err(e),
                Ok(rest) => Ok(seq![v] + rest),
            },
        }
    }
}

/// The arguments in what follows an opening parenthesis: the text must end
/// with `)`, and what stands before it is a comma-separated list of numbers.
pub open spec fn arguments(rest: Seq<char>, max: u64) -> Result<Seq<u64>, GrammarError> {
    if rest.len() == 0 || rest.last() != ')' {
        Err(GrammarError::Unterminated)
    } else {
        numbers(split(rest.drop_last(), ','), max)
    }
}

pub(crate) fn fold(c: char) -> (r: char)
    ensures
        r == lower(c),
{
    if c >= 'A' && c <= 'Z' {
        let b: u8 = c as u8;
        (b + 32) as char
    } else if c == '\u{212a}' {
        'k'
    } else {
        c
    }
}

/// The characters of `s`, each folded to lower case.
pub(crate) fn lowercase_chars(s: &str) -> (r: Vec<char>)
    ensures
        r@ == lowercase(s@),
{
    let mut out: Vec<char> = Vec::new();
    for c in it: s.chars()
        invariant
            it.seq() == s@,
            out@.len() == it.index(),
            forall|j: int| 0 <= j < out@.len() ==> out@[j] == lower(s@[j]),
    {
        out.push(fold(c));
    }
    assert(out@ =~= lowercase(s@));
    out
}

/// The characters of `s`.
pub(crate) fn chars_of(s: &str) -> (r: Vec<char>)
    ensures
        r@ == s@,
{
    let mut out: Vec<char> = Vec::new();
    for c in it: s.chars()
        invariant
            it.seq() == s@,
            out@ == it.seq().take(it.index()),
    {
        out.push(c);
    }
    out
}

/// Whether the characters in `from..to` spell `word`.
pub(crate) fn is_word(chars: &Vec<char>, from: usize, to: usize, word: &str) -> (r: bool)
    requires
        from <= to <= chars.len(),
    ensures
        r == (chars@.subrange(from as int, to as int) == word@),
{
    let letters = chars_of(word);
    if letters.len() != to - from {
        return false;
    }
    let mut i: usize = 0;
    while i < letters.len()
        invariant
            from <= to <= chars.len(),
            letters.len() == to - from,
            letters@ == word@,
            i <= letters.len(),
            forall|j: int| 0 <= j < i ==> chars@[from + j] == letters@[j],
        decreases letters.len() - i,
    {
        if chars[from + i] != letters[i] {
            assert(chars@.subrange(from as int, to as int)[i as int] != word@[i as int]);
            return false;
        }
        i += 1;
    }
    assert(chars@.subrange(from as int, to as int) =~= word@);
    true
}

pub(crate) fn is_space_char(c: char) -> (r: bool)
    ensures
        r == is_space(c),
{
    (c >= '\u{9}' && c <= '\u{d}') || c == ' ' || c == '\u{85}' || c == '\u{a0}' || c
        == '\u{1680}' || (c >= '\u{2000}' && c <= '\u{200a}') || c == '\u{2028}' || c
        == '\u{2029}' || c == '\u{202f}' || c == '\u{205f}' || c == '\u{3000}'
}

/// The first index in `from..to` that holds `c`, or `to`.
pub(crate) fn find(chars: &Vec<char>, from: usize, to: usize, c: char) -> (p: usize)
    requires
        from <= to <= chars.len(),
    ensures
        from <= p <= to,
        p - from == first_index(chars@.subrange(from as int, to as int), c),
{
    let mut i: usize = from;
    while i < to && chars[i] != c
        invariant
            from <= i <= to <= chars.len(),
            first_index(chars@.subrange(from as int, to as int), c) == (i - from) + first_index(
                chars@.subrange(i as int, to as int),
                c,
            ),
        decreases to - i,
    {
        assert(chars@.subrange(i as int, to as int).drop_first() =~= chars@.subrange(
            i + 1,
            to as int,
        ));
        i += 1;
    }
    i
}

/// The bounds of `from..to` without its leading and trailing whitespace.
pub(crate) fn trim_range(chars: &Vec<char>, from: usize, to: usize) -> (r: (usize, usize))
    requires
        from <= to <= chars.len(),
    ensures
        from <= r.0 <= r.1 <= to,
        chars@.subrange(r.0 as int, r.1 as int) == trim(chars@.subrange(from as int, to as int)),
{
    let mut a: usize = from;
    while a < to && is_space_char(chars[a])
        invariant
            from <= a <= to <= chars.len(),
            leading(chars@.subrange(from as int, to as int)) == (a - from) + leading(
                chars@.subrange(a as int, to as int),
            ),
        decreases to - a,
    {
        assert(chars@.subrange(a as int, to as int).drop_first() =~= chars@.subrange(
            a + 1,
            to as int,
        ));
        a += 1;
    }
    let mut b: usize = to;
    while b > a && is_space_char(chars[b - 1])
        invariant
            a <= b <= to <= chars.len(),
            trailing(chars@.subrange(a as int, to as int)) == (to - b) + trailing(
                chars@.subrange(a as int, b as int),
            ),
        decreases b - a,
    {
        assert(chars@.subrange(a as int, b as int).drop_last() =~= chars@.subrange(
            a as int,
            b - 1,
        ));
        b -= 1;
    }
    proof {
        let s = chars@.subrange(from as int, to as int);
        let t = s.skip(leading(s) as int);
        assert(t =~= chars@.subrange(a as int, to as int));
        assert(t.take(t.len() - trailing(t)) =~= chars@.subrange(a as int, b as int));
    }
    (a, b)
}

pub(crate) fn is_digit_char(c: char) -> (r: bool)
    ensures
        r == is_digit(c),
{
    c >= '0' && c <= '9'
}

/// Appending a digit multiplies the value by ten and adds the digit.
pub proof fn lemma_decimal_push(s: Seq<char>, c: char)
    ensures
        decimal(s.push(c)) == decimal(s) * 10 + digit_value(c),
{
    assert(s.push(c).drop_last() =~= s);
}

/// The value of the argument in `from..to`, as [`number`] defines it.
#[verifier::loop_isolation(false)]
pub(crate) fn parse_number(chars: &Vec<char>, from: usize, to: usize, max: u64) -> (r: Result<
    u64,
    GrammarError,
>)
    requires
        from <= to <= chars.len(),
    ensures
        r == number(chars@.subrange(from as int, to as int), max),
{
    let (start, end) = trim_range(chars, from, to);
    let first: usize = if start < end && chars[start] == '+' {
        start + 1
    } else {
        start
    };
    let ghost digits = chars@.subrange(first as int, end as int);
    proof {
        let t = chars@.subrange(start as int, end as int);
        assert(unsigned(t) =~= digits);
    }
    if first == end {
        return Err(GrammarError::NonNumeric);
    }
    let mut value: u64 = 0;
    let mut over: bool = false;
    let mut i: usize = first;
    while i < end
        invariant
            first <= i <= end <= chars.len(),
            digits == chars@.subrange(first as int, end as int),
            all_digits(chars@.subrange(first as int, i as int)),
            !over ==> value == decimal(chars@.subrange(first as int, i as int)) && value <= max,
            over ==> decimal(chars@.subrange(first as int, i as int)) > max,
        decreases end - i,
    {
        let c = chars[i];
        if !is_digit_char(c) {
            assert(!is_digit(digits[i - first]));
            return Err(GrammarError::NonNumeric);
        }
        let ghost before = chars@.subrange(first as int, i as int);
        proof {
            assert(chars@.subrange(first as int, i + 1) =~= before.push(c));
            lemma_decimal_push(before, c);
        }
        if !over {
            let next: u128 = value as u128 * 10 + (c as u8 - 48) as u128;
            if next > max as u128 {
                over = true;
            } else {
                value = next as u64;
            }
        }
        i += 1;
    }
    assert(chars@.subrange(first as int, i as int) == digits);
    if over {
        Err(GrammarError::OutOfRange)
    } else {
        Ok(value)
    }
}

/// `acc` followed by what `tail` holds, or the error of `tail`.
spec fn prepend(acc: Seq<u64>, tail: Result<Seq<u64>, GrammarError>) -> Result<
    Seq<u64>,
    GrammarError,
> {
    match tail {
        Ok(rest) => Ok(acc + rest),
        Err(e) => Err(e),
    }
}

/// The arguments in what follows the opening parenthesis at `from - 1`, as
/// [`arguments`] defines them.
#[verifier::loop_isolation(false)]
pub(crate) fn parse_arguments(chars: &Vec<char>, from: usize, max: u64) -> (r: Result<
    Vec<u64>,
    GrammarError,
>)
    requires
        from <= chars.len(),
    ensures
        match arguments(chars@.subrange(from as int, chars.len() as int), max) {
            Ok(values) => r matches Ok(v) && v@ == values,
            Err(e) => r == Err::<Vec<u64>, GrammarError>(e),
        },
        r matches Ok(v) ==> forall|j: int| 0 <= j < v@.len() ==> v@[j] <= max,
{
    let len = chars.len();
    if from == len || chars[len - 1] != ')' {
        return Err(GrammarError::Unterminated);
    }
    let end: usize = len - 1;
    let ghost inner = chars@.subrange(from as int, end as int);
    proof {
        assert(chars@.subrange(from as int, len as int).drop_last() =~= inner);
    }
    let mut out: Vec<u64> = Vec::new();
    let mut i: usize = from;
    loop
        invariant
            from <= i <= end < chars.len(),
            inner == chars@.subrange(from as int, end as int),
            forall|j: int| 0 <= j < out@.len() ==> out@[j] <= max,
            numbers(split(inner, ','), max) == prepend(
                out@,
                numbers(split(chars@.subrange(i as int, end as int), ','), max),
            ),
        decreases end + 1 - i,
    {
        let comma = find(chars, i, end, ',');
        let ghost tail = chars@.subrange(i as int, end as int);
        let ghost tokens = split(tail, ',');
        proof {
            assert(tail.take(comma - i) =~= chars@.subrange(i as int, comma as int));
            if comma < end {
                assert(tail.skip(comma - i + 1) =~= chars@.subrange(comma + 1, end as int));
                assert(tokens.drop_first() =~= split(
                    chars@.subrange(comma + 1, end as int),
                    ',',
                ));
            } else {
                assert(tail.take(comma - i) =~= tail);
                assert(tokens.drop_first() =~= Seq::<Seq<char>>::empty());
            }
            assert(tokens[0] == chars@.subrange(i as int, comma as int));
        }
        match parse_number(chars, i, comma, max) {
            Err(e) => {
                return Err(e);
            },
            Ok(v) => {
                let ghost before = out@;
                out.push(v);
                if comma == end {
                    proof {
                        assert(numbers(tokens.drop_first(), max) == Ok::<
                            Seq<u64>,
                            GrammarError,
                        >(Seq::empty()));
                        assert(before + (seq![v] + Seq::<u64>::empty()) =~= out@);
                    }
                    return Ok(out);
                }
                proof {
                    match numbers(tokens.drop_first(), max) {
                        Ok(rest) => {
                            assert(before + (seq![v] + rest) =~= out@ + rest);
                        },
                        Err(_) => {},
                    }
                }
                i = comma + 1;
            },
        }
    }
}

} // verus!
