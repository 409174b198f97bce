//! Decimal text of unsigned integers: writing it, and reading it back the
//! way `str::parse::<u64>` does.
use vstd::prelude::*;

verus! {

/// `String::push` appends one character.
pub assume_specification[ String::push ](s: &mut String, ch: char)
    ensures
        final(s)@ == old(s)@.push(ch),
;

/// The character of the decimal digit `d` (for `d` in `0..10`).
pub open spec fn digit_char(d: nat) -> char {
    (d + 48) as char
}

/// Whether `c` is one of `'0'..='9'`.
pub open spec fn is_digit(c: char) -> bool {
    '0' <= c && c <= '9'
}

/// The value of the decimal digit `c`.
pub open spec fn digit_value(c: char) -> nat {
    (c as int - 48) as nat
}

/// The shortest decimal text of `n`, without sign or leading zeros.
pub open spec fn decimal(n: nat) -> Seq<char>
    decreases n,
{
    if n < 10 {
        seq![digit_char(n)]
    } else {
        decimal(n / 10).push(digit_char(n % 10))
    }
}

/// Why a text is not the decimal form of a `u64` (the kinds of `std::num::ParseIntError`
/// that `u64` parsing can give).
#[derive(Debug, Clone, Copy, PartialEq, Eq, Structural)]
pub enum IntErrorKind {
    /// The text is empty.
    Empty,
    /// The text holds a character that is not a digit where a digit is needed.
    InvalidDigit,
    /// The number does not fit in a `u64`.
    PosOverflow,
}

impl IntErrorKind {
    /// The message that `std::num::ParseIntError` displays for this kind.
    pub fn message(&self) -> (r: &'static str)
        ensures
            *self == IntErrorKind::Empty ==> r@ == "cannot parse integer from empty string"@,
            *self == IntErrorKind::InvalidDigit ==> r@ == "invalid digit found in string"@,
            *self == IntErrorKind::PosOverflow ==> r@ == "number too large to fit in target type"@,
    {
        match self {
            IntErrorKind::Empty => "cannot parse integer from empty string",
            IntErrorKind::InvalidDigit => "invalid digit found in string",
            IntErrorKind::PosOverflow => "number too large to fit in target type",
        }
    }
}

/// Reading the digits `d` from left to right: the first character that is not a digit,
/// or the first digit at which the value leaves the range of `u64`, decides the error.
pub open spec fn digits_result(d: Seq<char>) -> Result<u64, IntErrorKind>
    decreases d.len(),
{
    if d.len() == 0 {
        Ok(0)
    } else {
        match digits_result(d.drop_last()) {
            Err(e) => Err(e),
            Ok(v) => if !is_digit(d.last()) {
                Err(IntErrorKind::InvalidDigit)
            } else if v * 10 + digit_value(d.last()) > u64::MAX {
                Err(IntErrorKind::PosOverflow)
            } else {
                Ok((v * 10 + digit_value(d.last())) as u64)
            },
        }
    }
}

/// What `str::parse::<u64>` gives for the text `s`: empty text is `Empty`, one leading `+`
/// is allowed before at least one digit, and the rest must be digits within range.
pub open spec fn parse_u64_spec(s: Seq<char>) -> Result<u64, IntErrorKind> {
    if s.len() == 0 {
        Err(IntErrorKind::Empty)
    } else if s[0] == '+' {
        if s.len() == 1 {
            Err(IntErrorKind::InvalidDigit)
        } else {
            digits_result(s.drop_first())
        }
    } else {
        digits_result(s)
    }
}

/// The digit character of `d`.
fn digit_to_char(d: u64) -> (c: char)
    requires
        d < 10,
    ensures
        c == digit_char(d as nat),
{
    let b: u8 = d as u8 + 48;
    b as char
}

/// The decimal text of `n`.
pub fn decimal_string(n: u64) -> (r: String)
    ensures
        r@ == decimal(n as nat),
{
    let mut m: u64 = n;
    let mut tail: Vec<char> = Vec::new();
    while m >= 10
        invariant
            decimal(n as nat) == decimal(m as nat) + tail@,
        decreases m,
    {
        let d = digit_to_char(m % 10);
        let ghost old_tail = tail@;
        proof {
            assert(decimal(m as nat) == decimal((m / 10) as nat).push(d));
            assert(decimal(m as nat) + tail@ =~= decimal((m / 10) as nat) + seq![d].add(tail@));
        }
        tail.insert(0, d);
        assert(tail@ =~= seq![d].add(old_tail));
        m = m / 10;
    }
    let mut r = String::new();
    r.push(digit_to_char(m));
    let mut i: usize = 0;
    while i < tail.len()
        invariant
            i <= tail.len(),
            r@ == decimal(m as nat) + tail@.take(i as int),
            decimal(n as nat) == decimal(m as nat) + tail@,
        decreases tail.len() - i,
    {
        r.push(tail[i]);
        proof {
            assert(tail@.take(i + 1) =~= tail@.take(i as int).push(tail@[i as int]));
        }
        i = i + 1;
    }
    assert(tail@.take(tail.len() as int) =~= tail@);
    r
}

/// The digit characters are the digits, with their values.
proof fn lemma_digit_char(d: nat)
    requires
        d < 10,
    ensures
        is_digit(digit_char(d)),
        digit_value(digit_char(d)) == d,
{
}

/// Reading digits back: the decimal text of `n` reads as `n`.
proof fn lemma_digits_result_decimal(n: u64)
    ensures
        digits_result(decimal(n as nat)) == Ok::<u64, IntErrorKind>(n),
    decreases n,
{
    let d = (n % 10) as nat;
    lemma_digit_char(d);
    if n < 10 {
        lemma_digits_result_push(Seq::empty(), digit_char(d));
        assert(seq![digit_char(d)] =~= Seq::<char>::empty().push(digit_char(d)));
    } else {
        lemma_digits_result_decimal(n / 10);
        lemma_digits_result_push(decimal((n / 10) as nat), digit_char(d));
    }
}

/// The decimal text of any `u64` reads back, as `str::parse::<u64>` reads it,
/// as the same number.
pub proof fn lemma_parse_decimal(n: u64)
    ensures
        parse_u64_spec(decimal(n as nat)) == Ok::<u64, IntErrorKind>(n),
{
    lemma_digits_result_decimal(n);
    let d = (n % 10) as nat;
    lemma_digit_char(d);
    if n >= 10 {
        lemma_decimal_nonempty((n / 10) as nat);
    }
    assert(decimal(n as nat).len() > 0);
    assert(is_digit(decimal(n as nat)[0])) by {
        lemma_decimal_digits(n as nat);
    }
}

/// Digits with a character that is not a digit are never read as a number.
proof fn lemma_digits_result_non_digit(d: Seq<char>, i: int)
    requires
        0 <= i < d.len(),
        !('0' <= d[i] && d[i] <= '9'),
    ensures
        digits_result(d) is Err,
    decreases d.len(),
{
    if i < d.len() - 1 {
        lemma_digits_result_non_digit(d.drop_last(), i);
    }
}

/// A text is read as a number only when it is not empty and, after at most one
/// leading `+`, holds digits `0`-`9` only: any other character makes it an error.
pub proof fn lemma_parse_rejects_non_digits(s: Seq<char>, i: int)
    requires
        0 <= i < s.len(),
        !('0' <= s[i] && s[i] <= '9'),
        !(i == 0 && s[0] == '+' && s.len() > 1),
    ensures
        parse_u64_spec(s) is Err,
{
    if s[0] == '+' && s.len() > 1 {
        lemma_digits_result_non_digit(s.drop_first(), i - 1);
    } else if s[0] != '+' {
        lemma_digits_result_non_digit(s, i);
    }
}

/// Decimal text is never empty.
proof fn lemma_decimal_nonempty(n: nat)
    ensures
        decimal(n).len() > 0,
    decreases n,
{
    if n >= 10 {
        lemma_decimal_nonempty(n / 10);
    }
}

/// Decimal text is made of digits only.
proof fn lemma_decimal_digits(n: nat)
    ensures
        forall|i: int| 0 <= i < decimal(n).len() ==> is_digit(#[trigger] decimal(n)[i]),
    decreases n,
{
    lemma_digit_char(n % 10);
    if n >= 10 {
        lemma_decimal_digits(n / 10);
        let prefix = decimal(n / 10);
        assert forall|i: int| 0 <= i < decimal(n).len() implies is_digit(#[trigger] decimal(n)[i]) by {
            if i < prefix.len() {
                assert(decimal(n)[i] == prefix[i]);
            }
        }
    }
}

/// One step of reading digits: the result for `d` extended by the character `c`.
proof fn lemma_digits_result_push(d: Seq<char>, c: char)
    ensures
        digits_result(d.push(c)) == match digits_result(d) {
            Err(e) => Err(e),
            Ok(v) => if !is_digit(c) {
                Err(IntErrorKind::InvalidDigit)
            } else if v * 10 + digit_value(c) > u64::MAX {
                Err(IntErrorKind::PosOverflow)
            } else {
                Ok((v * 10 + digit_value(c)) as u64)
            },
        },
{
    assert(d.push(c).drop_last() =~= d);
}

/// Reads `s` as a decimal `u64`, as `str::parse::<u64>` does.
pub fn parse_u64(s: &str) -> (r: Result<u64, IntErrorKind>)
    ensures
        r == parse_u64_spec(s@),
{
    let mut res: Result<u64, IntErrorKind> = Ok(0);
    let mut plus = false;
    let mut seen: u8 = 0;
    let ghost mut count: int = 0;
    for c in it: s.chars()
        invariant
            it.seq() == s@,
            count == it.index(),
            seen as int == if it.index() < 2 { it.index() as int } else { 2 },
            plus == (it.index() > 0 && s@[0] == '+'),
            res == digits_result(s@.subrange(if plus { 1 } else { 0 }, it.index() as int)),
    {
        let ghost i = it.index();
        let ghost start: int = if plus { 1 } else { 0 };
        proof {
            lemma_digits_result_push(s@.subrange(start, i as int), c);
            assert(s@.subrange(start, i + 1) =~= s@.subrange(start, i as int).push(c));
        }
        if seen == 0 && c == '+' {
            plus = true;
            assert(s@.subrange(1, 1) =~= Seq::<char>::empty());
        } else {
            res = match res {
                Err(e) => Err(e),
                Ok(v) => {
                    if c < '0' || c > '9' {
                        Err(IntErrorKind::InvalidDigit)
                    } else {
                        let dv: u64 = (c as u32 - 48) as u64;
                        if v > (u64::MAX - dv) / 10 {
                            Err(IntErrorKind::PosOverflow)
                        } else {
                            Ok(v * 10 + dv)
                        }
                    }
                },
            };
        }
        if seen < 2 {
            seen = seen + 1;
        }
        proof {
            count = count + 1;
        }
    }
    assert(count == s@.len());
    assert(s@.subrange(0, s@.len() as int) =~= s@);
    assert(s@.subrange(1, s@.len() as int) =~= s@.drop_first());
    if seen == 0 {
        Err(IntErrorKind::Empty)
    } else if plus && seen == 1 {
        Err(IntErrorKind::InvalidDigit)
    } else {
        res
    }
}

} // verus!
