//! Plain text helpers: characters of a string, decimal numerals.
use vstd::prelude::*;
use vstd::string::*;

verus! {

/// The digit character for a value below ten.
pub open spec fn digit(d: nat) -> char {
    if d == 0 { '0' }
    else if d == 1 { '1' }
    else if d == 2 { '2' }
    else if d == 3 { '3' }
    else if d == 4 { '4' }
    else if d == 5 { '5' }
    else if d == 6 { '6' }
    else if d == 7 { '7' }
    else if d == 8 { '8' }
    else { '9' }
}

/// The decimal numeral of `n`, without sign or leading zeros.
pub open spec fn decimal(n: nat) -> Seq<char>
    decreases n,
{
    if n < 10 {
        seq![digit(n)]
    } else {
        decimal(n / 10).push(digit(n % 10))
    }
}

/// Whether `c` is one of the ASCII digits `0` to `9`.
pub open spec fn is_digit(c: char) -> bool {
    48 <= (c as u32) && (c as u32) <= 57
}

/// The value of a digit character.
pub open spec fn digit_value(c: char) -> nat {
    ((c as u32) - 48) as nat
}

/// The value of a run of digits, most significant first.
pub open spec fn digits_value(s: Seq<char>) -> nat
    decreases s.len(),
{
    if s.len() == 0 {
        0
    } else {
        digits_value(s.drop_last()) * 10 + digit_value(s.last())
    }
}

/// The digits of an unsigned numeral: an optional leading `+` is dropped.
pub open spec fn unsigned_digits(s: Seq<char>) -> Seq<char> {
    if s.len() > 0 && s[0] == '+' {
        s.drop_first()
    } else {
        s
    }
}

/// What parsing `s` as a `u32` gives: a non-empty run of digits, optionally
/// after a `+`, whose value fits in 32 bits.
pub open spec fn parsed_u32(s: Seq<char>) -> Option<u32> {
    let d = unsigned_digits(s);
    if d.len() > 0 && (forall|i: int| 0 <= i < d.len() ==> is_digit(#[trigger] d[i]))
        && digits_value(d) <= u32::MAX {
        Some(digits_value(d) as u32)
    } else {
        None
    }
}

fn digit_char(d: u32) -> (r: char)
    requires
        d < 10,
    ensures
        r == digit(d as nat),
{
    if d == 0 { '0' }
    else if d == 1 { '1' }
    else if d == 2 { '2' }
    else if d == 3 { '3' }
    else if d == 4 { '4' }
    else if d == 5 { '5' }
    else if d == 6 { '6' }
    else if d == 7 { '7' }
    else if d == 8 { '8' }
    else { '9' }
}

fn push_decimal(n: u32, out: &mut Vec<char>)
    ensures
        final(out)@ == old(out)@ + decimal(n as nat),
    decreases n,
{
    if n >= 10 {
        push_decimal(n / 10, out);
    }
    out.push(digit_char(n % 10));
    assert(n >= 10 ==> decimal(n as nat) == decimal((n / 10) as nat).push(digit((n % 10) as nat)));
    proof {
        if n < 10 {
            assert(decimal(n as nat) == seq![digit(n as nat)]);
        }
    }
    assert(final(out)@ =~= old(out)@ + decimal(n as nat));
}

/// The characters of `n` written in decimal.
pub fn decimal_of(n: u32) -> (r: Vec<char>)
    ensures
        r@ == decimal(n as nat),
{
    let mut out: Vec<char> = Vec::new();
    push_decimal(n, &mut out);
    assert(out@ =~= decimal(n as nat));
    out
}

/// The characters of a string, in order.
pub fn chars_of(s: &str) -> (r: Vec<char>)
    ensures
        r@ == s@,
{
    let n = s.unicode_len();
    let mut out: Vec<char> = Vec::new();
    let mut i: usize = 0;
    while i < n
        invariant
            n == s@.len(),
            i <= n,
            out@ == s@.take(i as int),
        decreases n - i,
    {
        let c = s.get_char(i);
        out.push(c);
        i = i + 1;
        assert(out@ =~= s@.take(i as int));
    }
    assert(out@ =~= s@);
    out
}

/// Relies on `String`'s `FromIterator<char>`: the string holds the characters
/// in the order given.
#[verifier::external_body]
pub fn string_of(v: &Vec<char>) -> (r: String)
    ensures
        r@ == v@,
{
    v.iter().collect()
}

/// Parses an unsigned 32-bit decimal numeral, as `str::parse::<u32>` does:
/// `None` on anything but digits after an optional `+`, and on overflow.
pub fn parse_u32(s: &str) -> (r: Option<u32>)
    ensures
        r == parsed_u32(s@),
{
    let cs = chars_of(s);
    let n = cs.len();
    let mut start: usize = 0;
    if n > 0 && cs[0] == '+' {
        start = 1;
    }
    let ghost d = unsigned_digits(s@);
    assert(d =~= cs@.subrange(start as int, n as int));
    if start == n {
        return None;
    }
    let mut acc: u64 = 0;
    let mut i: usize = start;
    while i < n
        invariant
            cs@ == s@,
            n == cs@.len(),
            start <= i <= n,
            d == cs@.subrange(start as int, n as int),
            d == unsigned_digits(s@),
            acc <= u32::MAX,
            acc == digits_value(d.take(i - start)),
            forall|j: int| 0 <= j < i - start ==> is_digit(#[trigger] d[j]),
        decreases n - i,
    {
        let c = cs[i];
        let code = c as u32;
        if code < 48 || code > 57 {
            assert(d[i - start] == c);
            assert(!is_digit(d[i - start]));
            assert(!(forall|j: int| 0 <= j < d.len() ==> is_digit(#[trigger] d[j])));
            assert(parsed_u32(s@) is None);
            return None;
        }
        let ghost t = d.take(i + 1 - start);
        assert(t.drop_last() =~= d.take(i - start));
        assert(t.last() == c);
        acc = acc * 10 + (code - 48) as u64;
        i = i + 1;
        assert(acc == digits_value(t));
        if acc > 4294967295 {
            proof {
                assert(t == d.take(i - start));
                lemma_digits_value_prefix(d, (i - start) as int);
                assert(digits_value(d) > u32::MAX);
                assert(parsed_u32(s@) is None);
            }
            return None;
        }
    }
    assert(d.take(n - start) =~= d);
    Some(acc as u32)
}

proof fn lemma_digits_value_prefix(s: Seq<char>, k: int)
    requires
        0 <= k <= s.len(),
    ensures
        digits_value(s) >= digits_value(s.take(k)),
    decreases s.len(),
{
    if k < s.len() {
        assert(s.drop_last().take(k) =~= s.take(k));
        lemma_digits_value_prefix(s.drop_last(), k);
        assert(digits_value(s) == digits_value(s.drop_last()) * 10 + digit_value(s.last()));
        assert(digits_value(s.drop_last()) * 10 >= digits_value(s.drop_last())) by (nonlinear_arith);
    } else {
        assert(s.take(k) =~= s);
    }
}

} // verus!
