//! The command line of the simulation: how many steps to run.
use vstd::prelude::*;

verus! {

/// Steps run when the command line names no valid number.
pub const DEFAULT_STEPS: usize = 100;

/// Whether `c` is a decimal digit.
pub open spec fn is_decimal_digit(c: char) -> bool {
    '0' <= c <= '9'
}

/// The number written by the decimal digits `d`, most significant first.
pub open spec fn decimal_value(d: Seq<char>) -> int
    decreases d.len(),
{
    if d.len() == 0 {
        0
    } else {
        decimal_value(d.drop_last()) * 10 + (d.last() as int - '0' as int)
    }
}

/// What reading `s` as a `usize` gives: an optional `+` followed by one or more
/// decimal digits denotes their value when it fits in a `usize`; any other
/// text, including the empty one, is no number.
pub open spec fn spec_parse_usize(s: Seq<char>) -> Option<usize> {
    let d = if s.len() > 0 && s[0] == '+' {
        s.drop_first()
    } else {
        s
    };
    if d.len() > 0 && (forall|i: int| 0 <= i < d.len() ==> is_decimal_digit(#[trigger] d[i]))
        && decimal_value(d) <= usize::MAX {
        Some(decimal_value(d) as usize)
    } else {
        None
    }
}

/// Reads `s` as a `usize` through `str::parse::<usize>`.  As the standard
/// library documents for integer parsing, the text must be an optional `+`
/// followed only by decimal digits, and a value that does not fit is an error;
/// the contract claims exactly that.
#[verifier::external_body]
fn parse_usize(s: &str) -> (r: Option<usize>)
    ensures
        r == spec_parse_usize(s@),
{
    s.parse::<usize>().ok()
}

/// The number of steps named by the first command-line argument, or
/// `DEFAULT_STEPS` when there is none or it is not a number.
pub open spec fn spec_steps(arg: Option<Seq<char>>) -> usize {
    match arg {
        Some(s) => match spec_parse_usize(s) {
            Some(n) => n,
            None => DEFAULT_STEPS,
        },
        None => DEFAULT_STEPS,
    }
}

/// The argument decides the number of steps: when it reads as a number, that number
/// of steps is run, whatever its size; otherwise, and without an argument, 100 steps.
pub proof fn lemma_steps_follow_argument(s: Seq<char>)
    ensures
        forall|n: usize| spec_parse_usize(s) == Some(n) ==> spec_steps(Some(s)) == n,
        spec_parse_usize(s) is None ==> spec_steps(Some(s)) == 100,
        spec_steps(None) == 100,
{
}

/// Reading a number: a single digit is its own value, and appending a digit to a
/// number multiplies it by ten and adds the digit, as long as the result fits.
pub proof fn lemma_parse_digits(d: Seq<char>, c: char)
    requires
        is_decimal_digit(c),
        d.len() > 0,
        forall|i: int| 0 <= i < d.len() ==> is_decimal_digit(#[trigger] d[i]),
    ensures
        spec_parse_usize(seq![c]) == Some((c as int - '0' as int) as usize),
        spec_parse_usize(seq!['+', c]) == Some((c as int - '0' as int) as usize),
        spec_parse_usize(d) is Some && spec_parse_usize(d).unwrap() * 10 + (c as int - '0' as int)
            <= usize::MAX ==> spec_parse_usize(d.push(c)) == Some(
            (spec_parse_usize(d).unwrap() * 10 + (c as int - '0' as int)) as usize,
        ),
        spec_parse_usize(seq![]) is None,
        !is_decimal_digit('+') && !is_decimal_digit('-') && !is_decimal_digit(' '),
{
    let one = seq![c];
    assert(one.drop_last() =~= Seq::<char>::empty());
    assert(one[0] == c);
    assert(one.last() == c);
    assert(decimal_value(Seq::<char>::empty()) == 0);
    assert(decimal_value(one) == c as int - '0' as int);
    assert(0 <= c as int - '0' as int <= 9);
    assert(c != '+');
    assert forall|i: int| 0 <= i < one.len() implies is_decimal_digit(#[trigger] one[i]) by {
        assert(i == 0);
    }
    assert(spec_parse_usize(one) == Some((c as int - '0' as int) as usize));
    let plus = seq!['+', c];
    assert(plus.drop_first() =~= one);
    assert(plus[0] == '+');
    let e = d.push(c);
    assert(e.drop_last() =~= d);
    assert(d[0] != '+');
    assert(e[0] == d[0]);
    assert forall|i: int| 0 <= i < e.len() implies is_decimal_digit(#[trigger] e[i]) by {
        if i < d.len() {
            assert(e[i] == d[i]);
        }
    }
    assert(decimal_value(d) >= 0) by {
        lemma_decimal_value_nonneg(d);
    }
}

/// The value of a string of digits is never negative.
proof fn lemma_decimal_value_nonneg(d: Seq<char>)
    requires
        forall|i: int| 0 <= i < d.len() ==> is_decimal_digit(#[trigger] d[i]),
    ensures
        decimal_value(d) >= 0,
    decreases d.len(),
{
    if d.len() > 0 {
        assert forall|i: int| 0 <= i < d.drop_last().len() implies is_decimal_digit(
            #[trigger] d.drop_last()[i],
        ) by {
            assert(d.drop_last()[i] == d[i]);
        }
        lemma_decimal_value_nonneg(d.drop_last());
        assert(is_decimal_digit(d[d.len() - 1]));
    }
}

/// The number of steps to simulate, read from the first command-line argument.
pub fn steps_from_arg(arg: Option<&str>) -> (n: usize)
    ensures
        n == spec_steps(
            match arg {
                Some(s) => Some(s@),
                None => None,
            },
        ),
        arg is None ==> n == DEFAULT_STEPS,
        forall|m: usize| arg is Some && spec_parse_usize(arg->0@) == Some(m) ==> n == m,
        arg is Some && spec_parse_usize(arg->0@) is None ==> n == DEFAULT_STEPS,
{
    match arg {
        Some(s) => match parse_usize(s) {
            Some(n) => n,
            None => DEFAULT_STEPS,
        },
        None => DEFAULT_STEPS,
    }
}

} // verus!
