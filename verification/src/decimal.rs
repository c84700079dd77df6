//! Decimal text of unsigned integers: the grammar that `str::parse` accepts for
//! an unsigned integer type, and the canonical form that `to_string` writes.
use vstd::prelude::*;
use vstd::string::*;

verus! {

/// Why a text is not the decimal of an unsigned integer within bounds.
#[derive(Debug, Clone, Copy, PartialEq, Eq)]
pub enum ParseIntErrorKind {
    /// The text is empty.
    Empty,
    /// The text holds a character that is not a digit where a digit belongs.
    InvalidDigit,
    /// The digits stand for a number above the largest value of the type.
    PosOverflow,
}

/// The text that `ParseIntError` displays for each kind.
pub open spec fn parse_error_text(kind: ParseIntErrorKind) -> Seq<char> {
    match kind {
        ParseIntErrorKind::Empty => "cannot parse integer from empty string"@,
        ParseIntErrorKind::InvalidDigit => "invalid digit found in string"@,
        ParseIntErrorKind::PosOverflow => "number too large to fit in target type"@,
    }
}

impl ParseIntErrorKind {
    /// The message of this parse error.
    pub fn message(&self) -> (s: String)
        ensures
            s@ == parse_error_text(*self),
    {
        match self {
            ParseIntErrorKind::Empty => String::from_str("cannot parse integer from empty string"),
            ParseIntErrorKind::InvalidDigit => String::from_str("invalid digit found in string"),
            ParseIntErrorKind::PosOverflow => String::from_str("number too large to fit in target type"),
        }
    }
}

pub open spec fn is_digit(c: char) -> bool {
    '0' <= c && c <= '9'
}

pub open spec fn digit_value(c: char) -> int {
    c as int - '0' as int
}

pub open spec fn all_digits(s: Seq<char>) -> bool {
    forall|i: int| 0 <= i < s.len() ==> #[trigger] is_digit(s[i])
}

/// The number that a string of digits stands for.
pub open spec fn digits_value(s: Seq<char>) -> int
    decreases s.len(),
{
    if s.len() == 0 {
        0
    } else {
        digits_value(s.drop_last()) * 10 + digit_value(s.last())
    }
}

/// The text after an optional leading `+`.
pub open spec fn unsigned_body(s: Seq<char>) -> Seq<char> {
    if s.len() > 0 && s[0] == '+' {
        s.skip(1)
    } else {
        s
    }
}

/// Some run of leading digits of `d` already stands for a number above `max`.
pub open spec fn overflows(d: Seq<char>, max: int) -> bool {
    exists|k: int| 1 <= k <= d.len() && all_digits(#[trigger] d.take(k)) && digits_value(d.take(k)) > max
}

/// What parsing `s` as an unsigned integer whose largest value is `max` gives:
/// an optional `+`, then at least one digit, and nothing else; the digits are
/// read from the left, and the first fault met decides the error.
pub open spec fn parse_unsigned_spec(s: Seq<char>, max: int) -> Result<int, ParseIntErrorKind> {
    if s.len() == 0 {
        Err(ParseIntErrorKind::Empty)
    } else if s.len() == 1 && (s[0] == '+' || s[0] == '-') {
        Err(ParseIntErrorKind::InvalidDigit)
    } else if overflows(unsigned_body(s), max) {
        Err(ParseIntErrorKind::PosOverflow)
    } else if !all_digits(unsigned_body(s)) {
        Err(ParseIntErrorKind::InvalidDigit)
    } else {
        Ok(digits_value(unsigned_body(s)))
    }
}

/// The digit character for `d` in `0..10`.
pub open spec fn digit_char(d: int) -> char {
    if d == 0 {
        '0'
    } else if d == 1 {
        '1'
    } else if d == 2 {
        '2'
    } else if d == 3 {
        '3'
    } else if d == 4 {
        '4'
    } else if d == 5 {
        '5'
    } else if d == 6 {
        '6'
    } else if d == 7 {
        '7'
    } else if d == 8 {
        '8'
    } else {
        '9'
    }
}

/// The canonical decimal text of `n`: no sign, no leading zero.
pub open spec fn decimal(n: nat) -> Seq<char>
    decreases n,
{
    if n < 10 {
        seq![digit_char(n as int)]
    } else {
        decimal(n / 10).push(digit_char((n % 10) as int))
    }
}

proof fn lemma_digit_char(d: int)
    requires
        0 <= d < 10,
    ensures
        is_digit(digit_char(d)),
        digit_value(digit_char(d)) == d,
        digit_char(d) != '+',
        digit_char(d) != '-',
{
}

proof fn lemma_take_step(d: Seq<char>, k: int)
    requires
        1 <= k <= d.len(),
    ensures
        d.take(k).drop_last() == d.take(k - 1),
        d.take(k).last() == d[k - 1],
        digits_value(d.take(k)) == digits_value(d.take(k - 1)) * 10 + digit_value(d[k - 1]),
{
    assert(d.take(k).drop_last() =~= d.take(k - 1));
}

proof fn lemma_digits_value_nonneg(s: Seq<char>)
    requires
        all_digits(s),
    ensures
        digits_value(s) >= 0,
    decreases s.len(),
{
    if s.len() > 0 {
        assert(all_digits(s.drop_last())) by {
            assert forall|i: int| 0 <= i < s.drop_last().len() implies #[trigger] is_digit(
                s.drop_last()[i],
            ) by {
                assert(is_digit(s[i]));
            }
        }
        lemma_digits_value_nonneg(s.drop_last());
        assert(is_digit(s[s.len() - 1]));
    }
}

/// The digits of a prefix stand for no more than the digits of the whole.
proof fn lemma_prefix_value_le(s: Seq<char>, k: int)
    requires
        all_digits(s),
        0 <= k <= s.len(),
    ensures
        digits_value(s.take(k)) <= digits_value(s),
    decreases s.len(),
{
    if k == s.len() {
        assert(s.take(k) =~= s);
    } else {
        let t = s.drop_last();
        assert(all_digits(t)) by {
            assert forall|i: int| 0 <= i < t.len() implies #[trigger] is_digit(t[i]) by {
                assert(is_digit(s[i]));
            }
        }
        lemma_prefix_value_le(t, k);
        assert(t.take(k) =~= s.take(k));
        lemma_digits_value_nonneg(t);
        assert(is_digit(s[s.len() - 1]));
    }
}

proof fn lemma_decimal(n: nat)
    ensures
        decimal(n).len() >= 1,
        all_digits(decimal(n)),
        digits_value(decimal(n)) == n,
        is_digit(decimal(n)[0]),
    decreases n,
{
    if n < 10 {
        lemma_digit_char(n as int);
        assert(decimal(n).drop_last() =~= Seq::<char>::empty());
        assert(digits_value(Seq::<char>::empty()) == 0);
        assert(digits_value(decimal(n)) == digits_value(decimal(n).drop_last()) * 10 + digit_value(decimal(n).last()));
    } else {
        lemma_decimal(n / 10);
        lemma_digit_char((n % 10) as int);
        let s = decimal(n);
        assert(s.drop_last() =~= decimal(n / 10));
        assert(s.last() == digit_char((n % 10) as int));
        assert(digits_value(s) == digits_value(decimal(n / 10)) * 10 + digit_value(s.last()));
        assert((n / 10) * 10 + n % 10 == n);
        assert forall|i: int| 0 <= i < s.len() implies #[trigger] is_digit(s[i]) by {
            if i < s.len() - 1 {
                assert(s[i] == decimal(n / 10)[i]);
            }
        }
    }
}

/// Reading back the canonical decimal text of `n` gives `n`, for every `n`
/// within the bound of the type.
pub proof fn lemma_parse_decimal(n: nat, max: int)
    requires
        n <= max,
    ensures
        parse_unsigned_spec(decimal(n), max) == Ok::<int, ParseIntErrorKind>(n as int),
{
    lemma_decimal(n);
    let s = decimal(n);
    assert(unsigned_body(s) == s);
    assert(!overflows(s, max)) by {
        assert forall|k: int| 1 <= k <= s.len() && all_digits(#[trigger] s.take(k)) implies digits_value(
            s.take(k),
        ) <= max by {
            lemma_prefix_value_le(s, k);
        }
    }
}

/// A number that parses within the bound `max` is no larger than `max`.
pub proof fn lemma_parse_bounded(s: Seq<char>, max: int)
    requires
        parse_unsigned_spec(s, max) is Ok,
    ensures
        0 <= parse_unsigned_spec(s, max)->Ok_0 <= max,
{
    let d = unsigned_body(s);
    lemma_digits_value_nonneg(d);
    if d.len() > 0 {
        assert(d.take(d.len() as int) =~= d);
    } else {
        assert(d =~= Seq::<char>::empty());
    }
}

/// Parse `s` as an unsigned integer no larger than `max`, as `str::parse` does
/// for the unsigned integer types.
pub fn parse_unsigned(s: &str, max: u128) -> (r: Result<u128, ParseIntErrorKind>)
    ensures
        match r {
            Ok(v) => parse_unsigned_spec(s@, max as int) == Ok::<int, ParseIntErrorKind>(v as int),
            Err(e) => parse_unsigned_spec(s@, max as int) == Err::<int, ParseIntErrorKind>(e),
        },
{
    let n = s.unicode_len();
    if n == 0 {
        return Err(ParseIntErrorKind::Empty);
    }
    let c0 = s.get_char(0);
    if n == 1 && (c0 == '+' || c0 == '-') {
        return Err(ParseIntErrorKind::InvalidDigit);
    }
    let start: usize = if c0 == '+' {
        1
    } else {
        0
    };
    let ghost d = unsigned_body(s@);
    assert(d.len() == n - start);
    assert(forall|j: int| 0 <= j < d.len() ==> d[j] == s@[start + j]);
    let mut acc: u128 = 0;
    let mut i: usize = start;
    assert(d.take(0) =~= Seq::<char>::empty());
    while i < n
        invariant
            n == s@.len(),
            d == unsigned_body(s@),
            d.len() == n - start,
            forall|j: int| 0 <= j < d.len() ==> d[j] == s@[start + j],
            start <= i <= n,
            acc <= max,
            acc == digits_value(d.take(i - start)),
            all_digits(d.take(i - start)),
            forall|k: int| 1 <= k <= i - start ==> digits_value(#[trigger] d.take(k)) <= max,
        decreases n - i,
    {
        let k: usize = i - start;
        let c = s.get_char(i);
        proof {
            lemma_take_step(d, k + 1);
        }
        if !('0' <= c && c <= '9') {
            assert(!overflows(d, max as int)) by {
                assert forall|kk: int| 1 <= kk <= d.len() && all_digits(#[trigger] d.take(kk)) implies digits_value(
                    d.take(kk),
                ) <= max by {
                    if kk > k {
                        assert(d.take(kk)[k as int] == c);
                        assert(!is_digit(d.take(kk)[k as int]));
                    }
                }
            }
            assert(!all_digits(d)) by {
                assert(d[k as int] == c);
                assert(!is_digit(d[k as int]));
            }
            return Err(ParseIntErrorKind::InvalidDigit);
        }
        let dv: u128 = (c as u32 - '0' as u32) as u128;
        assert(dv == digit_value(c));
        assert(all_digits(d.take(k + 1))) by {
            assert forall|j: int| 0 <= j < k + 1 implies #[trigger] is_digit(d.take(k + 1)[j]) by {
                if j < k {
                    assert(d.take(k + 1)[j] == d.take(k as int)[j]);
                }
            }
        }
        match acc.checked_mul(10) {
            None => {
                assert(overflows(d, max as int)) by {
                    assert(digits_value(d.take(k + 1)) > max);
                }
                return Err(ParseIntErrorKind::PosOverflow);
            },
            Some(m) => match m.checked_add(dv) {
                None => {
                    assert(overflows(d, max as int)) by {
                        assert(digits_value(d.take(k + 1)) > max);
                    }
                    return Err(ParseIntErrorKind::PosOverflow);
                },
                Some(next) => {
                    if next > max {
                        assert(overflows(d, max as int)) by {
                            assert(digits_value(d.take(k + 1)) > max);
                        }
                        return Err(ParseIntErrorKind::PosOverflow);
                    }
                    acc = next;
                },
            },
        }
        i = i + 1;
    }
    assert(d.take(d.len() as int) =~= d);
    assert(!overflows(d, max as int));
    Ok(acc)
}

fn digit_char_of(d: u128) -> (c: char)
    requires
        d < 10,
    ensures
        c == digit_char(d as int),
{
    if d == 0 {
        '0'
    } else if d == 1 {
        '1'
    } else if d == 2 {
        '2'
    } else if d == 3 {
        '3'
    } else if d == 4 {
        '4'
    } else if d == 5 {
        '5'
    } else if d == 6 {
        '6'
    } else if d == 7 {
        '7'
    } else if d == 8 {
        '8'
    } else {
        '9'
    }
}

/// Append the canonical decimal text of `n` to `out`.
pub fn push_decimal(out: &mut String, n: u128)
    ensures
        final(out)@ == old(out)@ + decimal(n as nat),
    decreases n,
{
    if n >= 10 {
        push_decimal(out, n / 10);
    }
    out.push(digit_char_of(n % 10));
    proof {
        if n >= 10 {
            assert(final(out)@ =~= old(out)@ + decimal(n as nat));
        } else {
            assert(final(out)@ =~= old(out)@ + decimal(n as nat));
        }
    }
}

/// The canonical decimal text of `n`, as `to_string` writes it.
pub fn format_unsigned(n: u128) -> (s: String)
    ensures
        s@ == decimal(n as nat),
{
    let mut s = String::new();
    push_decimal(&mut s, n);
    assert(s@ =~= decimal(n as nat));
    s
}

} // verus!
