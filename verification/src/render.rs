//! The canonical text of a region, a placement or a colour, and the proof
//! that the parsers read it back.

use crate::error::GrammarError;
use crate::text::{
    all_digits, arguments, decimal, first_index, is_digit, is_space, leading,
    lemma_decimal_push, lower, lowercase, number, numbers, split, trailing, trim, unsigned,
};
use vstd::prelude::*;
use vstd::string::*;

verus! {

/// `String::push` appends the character to the end of the string.
pub assume_specification[ String::push ](s: &mut String, c: char)
    ensures
        final(s)@ == old(s)@.push(c),
;

/// The character that stands for a digit below ten.
pub open spec fn digit_char(d: nat) -> char {
    ((48 + d) as u8) as char
}

/// The decimal digits of `n`, without leading zeros.
pub open spec fn digits(n: nat) -> Seq<char>
    decreases n,
{
    if n < 10 {
        seq![digit_char(n)]
    } else {
        digits(n / 10).push(digit_char(n % 10))
    }
}

/// The numbers in decimal, separated by commas.
pub open spec fn list(args: Seq<u64>) -> Seq<char>
    decreases args.len(),
{
    if args.len() == 0 {
        Seq::empty()
    } else if args.len() == 1 {
        digits(args[0] as nat)
    } else {
        digits(args[0] as nat) + seq![','] + list(args.drop_first())
    }
}

/// An identifier followed by its arguments in parentheses.
pub open spec fn call(name: Seq<char>, args: Seq<u64>) -> Seq<char> {
    name + seq!['('] + list(args) + seq![')']
}

/// A lower-case letter or a hyphen.
pub open spec fn is_letter(c: char) -> bool {
    ('a' <= c && c <= 'z') || c == '-'
}

/// A non-empty string of lower-case letters and hyphens.
pub open spec fn is_identifier(s: Seq<char>) -> bool {
    s.len() > 0 && forall|i: int| 0 <= i < s.len() ==> is_letter(#[trigger] s[i])
}

/// Appends the decimal digits of `n`.
pub(crate) fn push_decimal(out: &mut String, n: u64)
    ensures
        final(out)@ == old(out)@ + digits(n as nat),
    decreases n,
{
    if n >= 10 {
        push_decimal(out, n / 10);
    }
    let d: u8 = (n % 10) as u8;
    out.push((48 + d) as char);
    proof {
        if n >= 10 {
            assert(old(out)@ + digits(n as nat) =~= (old(out)@ + digits((n / 10) as nat)).push(
                digit_char((n % 10) as nat),
            ));
        } else {
            assert(old(out)@ + digits(n as nat) =~= old(out)@.push(digit_char(n as nat)));
        }
    }
}

/// Appending a number to a list appends a comma, unless the list was
/// empty, and the digits of the number.
pub proof fn lemma_list_push(args: Seq<u64>, v: u64)
    ensures
        list(args.push(v)) == if args.len() == 0 {
            digits(v as nat)
        } else {
            list(args) + seq![','] + digits(v as nat)
        },
    decreases args.len(),
{
    let longer = args.push(v);
    if args.len() == 0 {
    } else if args.len() == 1 {
        assert(longer.drop_first() =~= seq![v]);
        assert(list(longer.drop_first()) == digits(v as nat));
    } else {
        assert(longer.drop_first() =~= args.drop_first().push(v));
        lemma_list_push(args.drop_first(), v);
        assert(list(longer) =~= list(args) + seq![','] + digits(v as nat));
    }
}

/// The canonical text of an identifier with its arguments.
pub(crate) fn write_call(name: &str, args: &Vec<u64>) -> (r: String)
    requires
        args.len() > 0,
    ensures
        r@ == call(name@, args@),
{
    let mut out = name.to_owned();
    out.push('(');
    let mut i: usize = 0;
    while i < args.len()
        invariant
            i <= args.len(),
            out@ == name@ + seq!['('] + list(args@.take(i as int)),
        decreases args.len() - i,
    {
        if i > 0 {
            out.push(',');
        }
        push_decimal(&mut out, args[i]);
        proof {
            assert(args@.take(i + 1) =~= args@.take(i as int).push(args@[i as int]));
            lemma_list_push(args@.take(i as int), args@[i as int]);
            assert(out@ =~= name@ + seq!['('] + list(args@.take(i + 1)));
        }
        i += 1;
    }
    out.push(')');
    proof {
        assert(args@.take(args.len() as int) =~= args@);
    }
    out
}

/// Text that neither starts nor ends with whitespace is its own trim.
pub proof fn lemma_trim_fixed(s: Seq<char>)
    requires
        s.len() > 0 ==> !is_space(s[0]) && !is_space(s.last()),
    ensures
        trim(s) == s,
{
    let t = s.skip(leading(s) as int);
    assert(t =~= s);
    assert(t.take(t.len() - trailing(t)) =~= s);
}

/// Where a character does not occur, its first index is the length.
pub proof fn lemma_first_index_absent(s: Seq<char>, c: char)
    requires
        forall|i: int| 0 <= i < s.len() ==> s[i] != c,
    ensures
        first_index(s, c) == s.len(),
    decreases s.len(),
{
    if s.len() > 0 {
        lemma_first_index_absent(s.drop_first(), c);
    }
}

/// A character that follows text without it is first found there.
pub proof fn lemma_first_index_found(a: Seq<char>, c: char, b: Seq<char>)
    requires
        forall|i: int| 0 <= i < a.len() ==> a[i] != c,
    ensures
        first_index(a + seq![c] + b, c) == a.len(),
    decreases a.len(),
{
    let s = a + seq![c] + b;
    if a.len() > 0 {
        assert(s.drop_first() =~= a.drop_first() + seq![c] + b);
        lemma_first_index_found(a.drop_first(), c, b);
    }
}

/// Text without capitals is its own lower case.
pub proof fn lemma_lowercase_fixed(s: Seq<char>)
    requires
        forall|i: int| 0 <= i < s.len() ==> lower(#[trigger] s[i]) == s[i],
    ensures
        lowercase(s) == s,
{
    assert(lowercase(s) =~= s);
}

/// Folding twice is folding once.
pub proof fn lemma_lowercase_idempotent(s: Seq<char>)
    ensures
        lowercase(lowercase(s)) == lowercase(s),
{
    assert(lowercase(lowercase(s)) =~= lowercase(s));
}

/// The digits of a number are digits, and they denote that number.
pub proof fn lemma_digits(n: nat)
    ensures
        digits(n).len() > 0,
        all_digits(digits(n)),
        decimal(digits(n)) == n,
    decreases n,
{
    if n < 10 {
        lemma_decimal_push(Seq::empty(), digit_char(n));
        assert(Seq::<char>::empty().push(digit_char(n)) =~= digits(n));
    } else {
        lemma_digits(n / 10);
        lemma_decimal_push(digits(n / 10), digit_char(n % 10));
    }
}

/// A number written in decimal is read back as itself.
pub proof fn lemma_number_of_digits(n: u64, max: u64)
    requires
        n <= max,
    ensures
        number(digits(n as nat), max) == Ok::<u64, GrammarError>(n),
{
    let d = digits(n as nat);
    lemma_digits(n as nat);
    assert(is_digit(d[0]));
    assert(is_digit(d.last()));
    lemma_trim_fixed(d);
    assert(unsigned(d) == d);
}

/// The characters of a list are digits and commas.
pub proof fn lemma_list_chars(args: Seq<u64>)
    ensures
        forall|i: int|
            0 <= i < list(args).len() ==> is_digit(#[trigger] list(args)[i]) || list(args)[i]
                == ',',
    decreases args.len(),
{
    let l = list(args);
    if args.len() == 1 {
        lemma_digits(args[0] as nat);
    } else if args.len() > 1 {
        let head = digits(args[0] as nat);
        let tail = list(args.drop_first());
        lemma_digits(args[0] as nat);
        lemma_list_chars(args.drop_first());
        assert forall|i: int| 0 <= i < l.len() implies is_digit(#[trigger] l[i]) || l[i]
            == ',' by {
            if i < head.len() {
                assert(l[i] == head[i]);
            } else if i > head.len() {
                assert(l[i] == tail[i - head.len() - 1]);
            }
        }
    }
}

/// A list of numbers written in decimal is read back as itself.
pub proof fn lemma_list_roundtrip(args: Seq<u64>, max: u64)
    requires
        args.len() > 0,
        forall|i: int| 0 <= i < args.len() ==> args[i] <= max,
    ensures
        numbers(split(list(args), ','), max) == Ok::<Seq<u64>, GrammarError>(args),
    decreases args.len(),
{
    let head = digits(args[0] as nat);
    lemma_digits(args[0] as nat);
    lemma_number_of_digits(args[0], max);
    assert forall|i: int| 0 <= i < head.len() implies head[i] != ',' by {
        assert(is_digit(head[i]));
    }
    if args.len() == 1 {
        lemma_first_index_absent(head, ',');
        let tokens = split(head, ',');
        assert(tokens =~= seq![head]);
        assert(tokens.drop_first() =~= Seq::<Seq<char>>::empty());
        assert(numbers(tokens.drop_first(), max) == Ok::<Seq<u64>, GrammarError>(
            Seq::empty(),
        ));
        assert(seq![args[0]] + Seq::<u64>::empty() =~= args);
    } else {
        let rest = args.drop_first();
        let s = list(args);
        lemma_first_index_found(head, ',', list(rest));
        lemma_list_roundtrip(rest, max);
        let tokens = split(s, ',');
        assert(s.take(head.len() as int) =~= head);
        assert(s.skip((head.len() + 1) as int) =~= list(rest));
        assert(tokens[0] == head);
        assert(tokens.drop_first() =~= split(list(rest), ','));
        assert(seq![args[0]] + rest =~= args);
    }
}

/// An identifier with its arguments, written canonically, is taken apart
/// into that identifier and those arguments.
pub proof fn lemma_call_roundtrip(name: Seq<char>, args: Seq<u64>, max: u64)
    requires
        is_identifier(name),
        args.len() > 0,
        forall|i: int| 0 <= i < args.len() ==> args[i] <= max,
    ensures
        lowercase(call(name, args)) == call(name, args),
        first_index(call(name, args), '(') == name.len(),
        name.len() < call(name, args).len(),
        trim(call(name, args).take(name.len() as int)) == name,
        arguments(call(name, args).skip((name.len() + 1) as int), max) == Ok::<
            Seq<u64>,
            GrammarError,
        >(args),
{
    let c = call(name, args);
    let l = list(args);
    lemma_list_chars(args);
    assert forall|i: int| 0 <= i < c.len() implies lower(#[trigger] c[i]) == c[i] by {
        if i < name.len() {
            assert(is_letter(name[i]));
        } else if i == name.len() {
        } else if i < name.len() + 1 + l.len() {
            assert(c[i] == l[i - name.len() - 1]);
        } else {
        }
    }
    lemma_lowercase_fixed(c);
    assert forall|i: int| 0 <= i < name.len() implies name[i] != '(' by {
        assert(is_letter(name[i]));
    }
    assert(c =~= name + seq!['('] + (l + seq![')']));
    lemma_first_index_found(name, '(', l + seq![')']);
    assert(c.take(name.len() as int) =~= name);
    assert(is_letter(name[0]));
    assert(is_letter(name.last()));
    lemma_trim_fixed(name);
    let rest = c.skip((name.len() + 1) as int);
    assert(rest =~= l + seq![')']);
    assert(rest.drop_last() =~= l);
    lemma_list_roundtrip(args, max);
}

/// An identifier written alone holds no parenthesis and no capital.
pub proof fn lemma_bare_roundtrip(name: Seq<char>)
    requires
        is_identifier(name),
    ensures
        lowercase(name) == name,
        first_index(name, '(') == name.len(),
{
    assert forall|i: int| 0 <= i < name.len() implies lower(#[trigger] name[i]) == name[i] by {
        assert(is_letter(name[i]));
    }
    lemma_lowercase_fixed(name);
    assert forall|i: int| 0 <= i < name.len() implies name[i] != '(' by {
        assert(is_letter(name[i]));
    }
    lemma_first_index_absent(name, '(');
}

} // verus!
