//! Character-level helpers shared by the parsers and formatters.
use vstd::prelude::*;

verus! {

/// An ASCII decimal digit.
pub open spec fn is_digit(c: char) -> bool {
    '0' <= c && c <= '9'
}

/// The value of an ASCII decimal digit.
pub open spec fn digit_value(c: char) -> int {
    c as int - '0' as int
}

/// The value of a numeral written in ASCII decimal digits.
pub open spec fn numeral_value(s: Seq<char>) -> int
    decreases s.len(),
{
    if s.len() == 0 {
        0
    } else {
        numeral_value(s.drop_last()) * 10 + digit_value(s.last())
    }
}

/// A numeral's value is not negative.
pub proof fn lemma_numeral_nonneg(s: Seq<char>)
    requires
        forall|i: int| 0 <= i < s.len() ==> is_digit(s[i]),
    ensures
        numeral_value(s) >= 0,
    decreases s.len(),
{
    if s.len() > 0 {
        lemma_numeral_nonneg(s.drop_last());
    }
}

/// The character of a digit value below ten.
pub open spec fn digit_char(d: int) -> char {
    if d == 0 {
        '0'
    } else if d == 1 {
        '1'
    } else if d == 2 {
        '2'
    } else if d == 3 {
        '3'
    } else if d == 4 {
        '4'
    } else if d == 5 {
        '5'
    } else if d == 6 {
        '6'
    } else if d == 7 {
        '7'
    } else if d == 8 {
        '8'
    } else {
        '9'
    }
}

/// The shortest decimal numeral of a natural number.
pub open spec fn decimal_text(n: nat) -> Seq<char>
    decreases n,
{
    if n < 10 {
        seq![digit_char(n as int)]
    } else {
        decimal_text(n / 10) + seq![digit_char((n % 10) as int)]
    }
}

/// A decimal numeral padded with zeros to at least two characters.
pub open spec fn two_digit_text(n: nat) -> Seq<char> {
    if n < 10 {
        seq!['0'] + decimal_text(n)
    } else {
        decimal_text(n)
    }
}

/// The characters of a string slice, in order.
pub fn chars_of(s: &str) -> (r: Vec<char>)
    ensures
        r@ == s@,
{
    let n = s.unicode_len();
    let mut r: Vec<char> = Vec::new();
    let mut i: usize = 0;
    while i < n
        invariant
            n == s@.len(),
            i <= n,
            r@ == s@.subrange(0, i as int),
        decreases n - i,
    {
        r.push(s.get_char(i));
        i += 1;
    }
    assert(r@ =~= s@);
    r
}

/// Whether two strings hold the same characters.
pub fn same_text(a: &str, b: &str) -> (r: bool)
    ensures
        r == (a@ == b@),
{
    let x = chars_of(a);
    let y = chars_of(b);
    if x.len() != y.len() {
        return false;
    }
    let mut i: usize = 0;
    while i < x.len()
        invariant
            x@ == a@,
            y@ == b@,
            x@.len() == y@.len(),
            i <= x@.len(),
            forall|j: int| 0 <= j < i ==> x@[j] == y@[j],
        decreases x@.len() - i,
    {
        if x[i] != y[i] {
            return false;
        }
        i += 1;
    }
    assert(x@ =~= y@);
    true
}

/// The one-character text of a digit value below ten.
pub fn digit_str(d: u64) -> (r: &'static str)
    requires
        d < 10,
    ensures
        r@ == seq![digit_char(d as int)],
{
    proof {
        reveal_strlit("0");
        reveal_strlit("1");
        reveal_strlit("2");
        reveal_strlit("3");
        reveal_strlit("4");
        reveal_strlit("5");
        reveal_strlit("6");
        reveal_strlit("7");
        reveal_strlit("8");
        reveal_strlit("9");
    }
    let r = if d == 0 {
        "0"
    } else if d == 1 {
        "1"
    } else if d == 2 {
        "2"
    } else if d == 3 {
        "3"
    } else if d == 4 {
        "4"
    } else if d == 5 {
        "5"
    } else if d == 6 {
        "6"
    } else if d == 7 {
        "7"
    } else if d == 8 {
        "8"
    } else {
        "9"
    };
    assert(r@ =~= seq![digit_char(d as int)]);
    r
}

/// Appends the shortest decimal numeral of `n`.
pub fn push_decimal(out: &mut String, n: u128)
    ensures
        final(out)@ == old(out)@ + decimal_text(n as nat),
    decreases n,
{
    if n < 10 {
        out.append(digit_str(n as u64));
    } else {
        push_decimal(out, n / 10);
        out.append(digit_str((n % 10) as u64));
        assert(final(out)@ =~= old(out)@ + decimal_text(n as nat));
    }
}

/// Appends the decimal numeral of `n`, zero-padded to two characters.
pub fn push_two_digits(out: &mut String, n: u128)
    ensures
        final(out)@ == old(out)@ + two_digit_text(n as nat),
{
    if n < 10 {
        out.append(digit_str(0));
        assert(seq![digit_char(0)] == seq!['0']);
    }
    push_decimal(out, n);
    assert(final(out)@ =~= old(out)@ + two_digit_text(n as nat));
}

} // verus!
