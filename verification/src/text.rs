use vstd::prelude::*;

verus! {

broadcast use vstd::string::group_string_axioms;

pub open spec fn is_ascii_digit(c: char) -> bool {
    '0' <= c && c <= '9'
}

pub open spec fn digit_value(c: char) -> nat {
    (c as int - '0' as int) as nat
}

pub open spec fn all_digits(s: Seq<char>) -> bool {
    forall|i: int| 0 <= i < s.len() ==> is_ascii_digit(#[trigger] s[i])
}

/// The number written by a string of decimal digits, most significant first.
pub open spec fn digits_value(s: Seq<char>) -> nat
    decreases s.len(),
{
    if s.len() == 0 {
        0
    } else {
        digits_value(s.drop_last()) * 10 + digit_value(s.last())
    }
}

/// Where the digits start: after one optional leading `+`.
pub open spec fn digits_start(s: Seq<char>) -> int {
    if s.len() > 0 && s[0] == '+' {
        1
    } else {
        0
    }
}

/// What `str::parse::<usize>` yields: an optional `+`, then one or more decimal
/// digits whose value fits in a `usize`; anything else is rejected.
pub open spec fn parsed_usize(s: Seq<char>) -> Option<usize> {
    let body = s.subrange(digits_start(s), s.len() as int);
    if body.len() > 0 && all_digits(body) && digits_value(body) <= usize::MAX {
        Some(digits_value(body) as usize)
    } else {
        None
    }
}

proof fn lemma_digits_value_prefix(s: Seq<char>, k: int)
    requires
        0 <= k <= s.len(),
    ensures
        digits_value(s.take(k)) <= digits_value(s),
    decreases s.len(),
{
    if k < s.len() {
        assert(s.drop_last().take(k) =~= s.take(k));
        lemma_digits_value_prefix(s.drop_last(), k);
    } else {
        assert(s.take(k) =~= s);
    }
}

/// Parses a decimal `usize` the way `str::parse::<usize>` does.
pub fn parse_usize(s: &str) -> (r: Option<usize>)
    ensures
        r == parsed_usize(s@),
{
    let ghost start: int = digits_start(s@);
    let mut value: usize = 0;
    let mut first = true;
    let mut any_digit = false;
    for c in it: s.chars()
        invariant
            it.seq() == s@,
            start == digits_start(s@),
            first == (it.index() == 0),
            any_digit == (it.index() > start),
            it.index() < start ==> value == 0,
            it.index() >= start ==> {
                &&& all_digits(s@.subrange(start, it.index() as int))
                &&& value == digits_value(s@.subrange(start, it.index() as int))
            },
    {
        let ghost k: int = it.index() as int;
        assert(c == s@[k]);
        if first && c == '+' {
            first = false;
            assert(s@.subrange(start, k + 1) =~= Seq::<char>::empty());
        } else {
            first = false;
            let ghost prefix = s@.subrange(start, k);
            let ghost next = s@.subrange(start, k + 1);
            assert(next.drop_last() =~= prefix);
            if !('0' <= c && c <= '9') {
                assert(!all_digits(s@.subrange(start, s@.len() as int))) by {
                    assert(s@.subrange(start, s@.len() as int)[k - start] == c);
                }
                return None;
            }
            let d: usize = (c as u32 - '0' as u32) as usize;
            let grown = value.checked_mul(10);
            if grown.is_none() {
                proof {
                    let body = s@.subrange(start, s@.len() as int);
                    assert(body.take(k + 1 - start) =~= next);
                    lemma_digits_value_prefix(body, k + 1 - start);
                }
                return None;
            }
            let total = grown.unwrap().checked_add(d);
            if total.is_none() {
                proof {
                    let body = s@.subrange(start, s@.len() as int);
                    assert(body.take(k + 1 - start) =~= next);
                    lemma_digits_value_prefix(body, k + 1 - start);
                }
                return None;
            }
            value = total.unwrap();
            any_digit = true;
            assert(digits_value(next) == digits_value(prefix) * 10 + d);
        }
    }
    if !any_digit {
        return None;
    }
    Some(value)
}

/// The digit character for `d`, for `d` below ten.
pub open spec fn digit_char(d: nat) -> char {
    (('0' as int) + d) as char
}

/// The usual decimal rendering of `n`: no sign, no leading zeros.
pub open spec fn decimal(n: nat) -> Seq<char>
    decreases n,
{
    if n < 10 {
        seq![digit_char(n)]
    } else {
        decimal(n / 10).push(digit_char(n % 10))
    }
}

proof fn lemma_decimal_digits(n: nat)
    ensures
        decimal(n).len() > 0,
        all_digits(decimal(n)),
        digits_value(decimal(n)) == n,
        decimal(n)[0] != '+',
    decreases n,
{
    let c = digit_char(n % 10);
    assert(c as int == '0' as int + n % 10);
    assert(digit_value(c) == n % 10);
    assert(n == (n / 10) * 10 + n % 10);
    if n >= 10 {
        lemma_decimal_digits(n / 10);
        let s = decimal(n);
        assert(s.drop_last() =~= decimal(n / 10));
        assert(s[0] == decimal(n / 10)[0]);
        assert forall|i: int| 0 <= i < s.len() implies is_ascii_digit(#[trigger] s[i]) by {
            if i < s.len() - 1 {
                assert(s[i] == decimal(n / 10)[i]);
            }
        }
    } else {
        assert(decimal(n).drop_last() =~= Seq::<char>::empty());
        assert(digits_value(Seq::<char>::empty()) == 0);
    }
}

/// Every nonempty string of decimal digits whose value fits in a `usize`
/// parses to that value, whatever its length and however many leading zeros
/// it has, with or without one leading `+`.
pub proof fn lemma_digit_strings_parse(s: Seq<char>)
    requires
        s.len() > 0,
        forall|i: int| 0 <= i < s.len() ==> '0' <= #[trigger] s[i] && s[i] <= '9',
        digits_value(s) <= usize::MAX,
    ensures
        parsed_usize(s) == Some(digits_value(s) as usize),
        parsed_usize(seq!['+'] + s) == Some(digits_value(s) as usize),
{
    assert(s[0] != '+');
    assert(s.subrange(0, s.len() as int) =~= s);
    let p = seq!['+'] + s;
    assert(p[0] == '+');
    assert(p.subrange(1, p.len() as int) =~= s);
}

/// Every `usize` written in decimal reads back as itself.
pub proof fn lemma_decimal_round_trip(n: usize)
    ensures
        parsed_usize(decimal(n as nat)) == Some(n),
{
    lemma_decimal_digits(n as nat);
    let s = decimal(n as nat);
    assert(s.subrange(0, s.len() as int) =~= s);
}

/// A string with a character that is neither a decimal digit nor one leading
/// `+` never parses.
pub proof fn lemma_other_characters_rejected(s: Seq<char>, i: int)
    requires
        0 <= i < s.len(),
        !('0' <= s[i] && s[i] <= '9'),
        !(i == 0 && s[i] == '+'),
    ensures
        parsed_usize(s) is None,
{
    let start = digits_start(s);
    if start <= i {
        assert(s.subrange(start, s.len() as int)[i - start] == s[i]);
    }
}

/// The empty string, and a lone `+`, never parse.
pub proof fn lemma_no_digits_rejected()
    ensures
        parsed_usize(Seq::empty()) is None,
        parsed_usize(seq!['+']) is None,
{
    assert(seq!['+'].subrange(1, 1) =~= Seq::<char>::empty());
}

} // verus!
