//! Reading and writing integers as text.
use crate::text::Text;
use vstd::prelude::*;

verus! {

/// The value of `c` as a digit in `radix`, for a radix up to ten.
pub open spec fn digit_of(c: char, radix: int) -> Option<int> {
    let n = c as u32 as int;
    if 0x30 <= n && n < 0x30 + radix && radix <= 10 {
        Some(n - 0x30)
    } else {
        None
    }
}

/// The number that the first `n` characters of `s` spell in `radix`.
pub open spec fn digits_value(s: Text, radix: int, n: int) -> int
    decreases n,
{
    if n <= 0 {
        0
    } else {
        digits_value(s, radix, n - 1) * radix + digit_of(s[n - 1], radix).unwrap_or(0)
    }
}

/// Whether every character of `s` is a digit in `radix`.
pub open spec fn all_digits(s: Text, radix: int) -> bool {
    forall|i: int| 0 <= i < s.len() ==> (#[trigger] digit_of(s[i], radix)) is Some
}

/// Whether `s` opens with a sign that a number of the range `min..=max` may
/// carry: `+` always, `-` where the range holds negative numbers.
pub open spec fn has_sign(s: Text, min: int) -> bool {
    s.len() > 0 && (s[0] == '+' || (s[0] == '-' && min < 0))
}

/// The integer that `s` spells in `radix`: an optional sign, then at least one
/// digit and nothing else, with a value in `min..=max`.
pub open spec fn parse_int(s: Text, radix: int, min: int, max: int) -> Option<int> {
    let body = if has_sign(s, min) {
        s.subrange(1, s.len() as int)
    } else {
        s
    };
    let magnitude = digits_value(body, radix, body.len() as int);
    let value = if has_sign(s, min) && s[0] == '-' {
        -magnitude
    } else {
        magnitude
    };
    if body.len() > 0 && all_digits(body, radix) && min <= value <= max {
        Some(value)
    } else {
        None
    }
}

/// The character for a digit below ten.
pub open spec fn digit_char(d: int) -> char {
    if d == 0 {
        '0'
    } else if d == 1 {
        '1'
    } else if d == 2 {
        '2'
    } else if d == 3 {
        '3'
    } else if d == 4 {
        '4'
    } else if d == 5 {
        '5'
    } else if d == 6 {
        '6'
    } else if d == 7 {
        '7'
    } else if d == 8 {
        '8'
    } else {
        '9'
    }
}

/// The decimal spelling of `n`, without leading zeros.
pub open spec fn decimal(n: nat) -> Text
    decreases n,
{
    if n < 10 {
        seq![digit_char(n as int)]
    } else {
        decimal(n / 10).push(digit_char((n % 10) as int))
    }
}

/// A longer prefix of digits spells a number that is no smaller.
pub proof fn lemma_digits_grow(s: Text, radix: int, n: int, m: int)
    requires
        2 <= radix <= 10,
        0 <= n <= m,
    ensures
        0 <= digits_value(s, radix, n) <= digits_value(s, radix, m),
    decreases m,
{
    if m > 0 {
        if n == m {
            lemma_digits_grow(s, radix, n - 1, m - 1);
        } else {
            lemma_digits_grow(s, radix, n, m - 1);
        }
        let v = digits_value(s, radix, m - 1);
        assert(v * radix >= v) by (nonlinear_arith)
            requires
                v >= 0,
                radix >= 2,
        ;
    }
}

/// The integer that `v` spells in `radix`, if it lies in `min..=max`.
#[verifier::loop_isolation(false)]
pub fn parse_integer(v: &Vec<char>, radix: u32, min: i128, max: i128) -> (r: Option<i128>)
    requires
        2 <= radix <= 10,
        -0x1_0000_0000_0000_0000_0000 < min <= 0 <= max < 0x1_0000_0000_0000_0000_0000,
    ensures
        match r {
            Some(x) => parse_int(v@, radix as int, min as int, max as int) == Some(x as int),
            None => parse_int(v@, radix as int, min as int, max as int) is None,
        },
{
    let ghost s = v@;
    let signed = v.len() > 0 && (v[0] == '+' || (v[0] == '-' && min < 0));
    let negative = signed && v[0] == '-';
    let start: usize = if signed {
        1
    } else {
        0
    };
    let ghost body = if signed {
        s.subrange(1, s.len() as int)
    } else {
        s
    };
    if start >= v.len() {
        return None;
    }
    let bound: i128 = if negative {
        -min
    } else {
        max
    };
    let mut acc: i128 = 0;
    let mut i: usize = start;
    while i < v.len()
        invariant
            start <= i <= v.len(),
            2 <= radix <= 10,
            body.len() == v.len() - start,
            forall|j: int| 0 <= j < body.len() ==> body[j] == v@[j + start],
            0 <= bound < 0x1_0000_0000_0000_0000_0000,
            0 <= acc <= bound,
            acc == digits_value(body, radix as int, i - start),
            forall|j: int| 0 <= j < i - start ==> (#[trigger] digit_of(body[j], radix as int)) is Some,
        decreases v.len() - i,
    {
        let n: u32 = v[i] as u32;
        if n < 0x30 || n >= 0x30 + radix {
            assert(digit_of(body[i - start], radix as int) is None);
            return None;
        }
        let d: i128 = (n - 0x30) as i128;
        assert(digit_of(body[i - start], radix as int) == Some(d as int));
        assert(acc * (radix as i128) <= 0x1_0000_0000_0000_0000_0000 * 10) by (nonlinear_arith)
            requires
                0 <= acc < 0x1_0000_0000_0000_0000_0000,
                2 <= radix <= 10,
        ;
        assert(acc * (radix as i128) >= 0) by (nonlinear_arith)
            requires
                0 <= acc,
                2 <= radix,
        ;
        let next: i128 = acc * (radix as i128) + d;
        assert(next == digits_value(body, radix as int, i + 1 - start));
        if next > bound {
            proof {
                lemma_digits_grow(body, radix as int, i + 1 - start, body.len() as int);
            }
            return None;
        }
        acc = next;
        i += 1;
    }
    assert(all_digits(body, radix as int));
    if negative {
        Some(-acc)
    } else {
        Some(acc)
    }
}

/// The character for a digit below ten.
pub fn digit_to_char(d: u64) -> (c: char)
    requires
        d < 10,
    ensures
        c == digit_char(d as int),
{
    if d == 0 {
        '0'
    } else if d == 1 {
        '1'
    } else if d == 2 {
        '2'
    } else if d == 3 {
        '3'
    } else if d == 4 {
        '4'
    } else if d == 5 {
        '5'
    } else if d == 6 {
        '6'
    } else if d == 7 {
        '7'
    } else if d == 8 {
        '8'
    } else {
        '9'
    }
}

/// The decimal spelling of `n`.
pub fn decimal_of(n: u64) -> (out: Vec<char>)
    ensures
        out@ == decimal(n as nat),
    decreases n,
{
    if n < 10 {
        let mut out: Vec<char> = Vec::new();
        out.push(digit_to_char(n));
        out
    } else {
        let mut out = decimal_of(n / 10);
        out.push(digit_to_char(n % 10));
        out
    }
}

} // verus!
