use vstd::prelude::*;

verus! {

/// An ASCII decimal digit.
pub open spec fn is_ascii_digit(c: char) -> bool {
    '0' <= c <= '9'
}

/// Every character of `s` is an ASCII decimal digit.
pub open spec fn all_digits(s: Seq<char>) -> bool {
    forall|i: int| 0 <= i < s.len() ==> is_ascii_digit(#[trigger] s[i])
}

/// The value of one decimal digit.
pub open spec fn digit_value(c: char) -> int {
    c as int - '0' as int
}

/// The character of a decimal digit `0 <= d < 10`.
pub open spec fn digit_char(d: int) -> char {
    (d + '0' as int) as char
}

/// The value of a string of decimal digits, most significant first.
pub open spec fn digits_value(s: Seq<char>) -> int
    decreases s.len(),
{
    if s.len() == 0 {
        0
    } else {
        digits_value(s.drop_last()) * 10 + digit_value(s.last())
    }
}

/// What `str::parse::<i64>` accepts: an optional `+` or `-` and at least one
/// decimal digit, whose value fits an `i64`.
pub open spec fn spec_parse_i64(s: Seq<char>) -> Option<int> {
    let negative = s.len() > 0 && s[0] == '-';
    let body = if s.len() > 0 && (s[0] == '-' || s[0] == '+') {
        s.drop_first()
    } else {
        s
    };
    if body.len() == 0 || !all_digits(body) {
        None
    } else {
        let v = if negative {
            -digits_value(body)
        } else {
            digits_value(body)
        };
        if i64::MIN <= v <= i64::MAX {
            Some(v)
        } else {
            None
        }
    }
}

/// The decimal text of a natural number, without leading zeros.
pub open spec fn nat_text(n: nat) -> Seq<char>
    decreases n,
{
    if n < 10 {
        seq![digit_char(n as int)]
    } else {
        nat_text(n / 10).push(digit_char((n % 10) as int))
    }
}

/// The decimal text of an integer, as `Display` writes it.
pub open spec fn int_text(n: int) -> Seq<char> {
    if n < 0 {
        seq!['-'] + nat_text((-n) as nat)
    } else {
        nat_text(n as nat)
    }
}

proof fn lemma_digits_value_take_step(s: Seq<char>, i: int)
    requires
        0 <= i < s.len(),
    ensures
        digits_value(s.take(i + 1)) == digits_value(s.take(i)) * 10 + digit_value(s[i]),
{
    assert(s.take(i + 1).drop_last() == s.take(i));
}

proof fn lemma_digits_value_nonneg(s: Seq<char>)
    requires
        all_digits(s),
    ensures
        digits_value(s) >= 0,
    decreases s.len(),
{
    if s.len() > 0 {
        lemma_digits_value_nonneg(s.drop_last());
    }
}

proof fn lemma_digits_value_monotone(s: Seq<char>, i: int, j: int)
    requires
        all_digits(s),
        0 <= i <= j <= s.len(),
    ensures
        digits_value(s.take(i)) <= digits_value(s.take(j)),
    decreases j - i,
{
    if i < j {
        lemma_digits_value_monotone(s, i, j - 1);
        lemma_digits_value_take_step(s, j - 1);
        assert(all_digits(s.take(j - 1)));
        lemma_digits_value_nonneg(s.take(j - 1));
    }
}

proof fn lemma_nat_text_digits(n: nat)
    ensures
        all_digits(nat_text(n)),
        digits_value(nat_text(n)) == n,
        nat_text(n).len() > 0,
    decreases n,
{
    if n >= 10 {
        lemma_nat_text_digits(n / 10);
        let t = nat_text(n);
        assert(t.drop_last() == nat_text(n / 10));
        let d = (n % 10) as int;
        assert(digit_value(digit_char(d)) == d);
        assert((n / 10) * 10 + n % 10 == n) by (nonlinear_arith);
        assert(t.last() == digit_char(d));
        assert(digits_value(t) == digits_value(t.drop_last()) * 10 + digit_value(t.last()));
        assert(digits_value(t.drop_last()) == n / 10);
        assert forall|i: int| 0 <= i < t.len() implies is_ascii_digit(#[trigger] t[i]) by {
            if i < t.len() - 1 {
                assert(t[i] == nat_text(n / 10)[i]);
            }
        }
    } else {
        let t = nat_text(n);
        assert(t.drop_last().len() == 0);
        assert(digits_value(t.drop_last()) == 0);
        assert(t.last() == digit_char(n as int));
        assert(digit_value(digit_char(n as int)) == n);
        assert(digits_value(t) == digits_value(t.drop_last()) * 10 + digit_value(t.last()));
    }
}

/// Reading back the decimal text of an `i64` gives the same number.
pub proof fn lemma_parse_int_text(n: int)
    requires
        i64::MIN <= n <= i64::MAX,
    ensures
        spec_parse_i64(int_text(n)) == Some(n),
{
    if n < 0 {
        lemma_nat_text_digits((-n) as nat);
        assert((seq!['-'] + nat_text((-n) as nat)).drop_first() == nat_text((-n) as nat));
    } else {
        lemma_nat_text_digits(n as nat);
        let t = nat_text(n as nat);
        assert(is_ascii_digit(t[0]));
    }
}

/// The decimal text never holds a separator such as `:`.
pub proof fn lemma_int_text_chars(n: int)
    ensures
        forall|i: int|
            0 <= i < int_text(n).len() ==> #[trigger] int_text(n)[i] == '-' || is_ascii_digit(
                int_text(n)[i],
            ),
        int_text(n).len() > 0,
{
    if n < 0 {
        lemma_nat_text_digits((-n) as nat);
        let t = nat_text((-n) as nat);
        assert forall|i: int| 0 <= i < int_text(n).len() implies #[trigger] int_text(n)[i] == '-'
            || is_ascii_digit(int_text(n)[i]) by {
            if i > 0 {
                assert(int_text(n)[i] == t[i - 1]);
            }
        }
    } else {
        lemma_nat_text_digits(n as nat);
    }
}

/// Parses a decimal `i64` as `str::parse::<i64>` does.
pub fn parse_i64(s: &[char]) -> (r: Option<i64>)
    ensures
        r matches Some(v) ==> spec_parse_i64(s@) == Some(v as int),
        r is None ==> spec_parse_i64(s@) is None,
{
    let len = s.len();
    let mut start: usize = 0;
    let mut negative = false;
    if len > 0 && (s[0] == '-' || s[0] == '+') {
        negative = s[0] == '-';
        start = 1;
    }
    let ghost body = if len > 0 && (s@[0] == '-' || s@[0] == '+') {
        s@.drop_first()
    } else {
        s@
    };
    if start >= len {
        return None;
    }
    let bound: u128 = 0x8000_0000_0000_0000;
    let mut magnitude: u128 = 0;
    let mut i = start;
    while i < len
        invariant
            start <= i <= len,
            len == s@.len(),
            body == s@.subrange(start as int, len as int),
            start == 0 || start == 1,
            all_digits(body.take(i - start)),
            magnitude == digits_value(body.take(i - start)),
            magnitude <= bound,
            bound == 0x8000_0000_0000_0000,
            body == (if s@.len() > 0 && (s@[0] == '-' || s@[0] == '+') {
                s@.drop_first()
            } else {
                s@
            }),
            negative == (s@.len() > 0 && s@[0] == '-'),
        decreases len - i,
    {
        let c = s[i];
        if !('0' <= c && c <= '9') {
            proof {
                assert(body[i - start] == c);
                assert(!is_ascii_digit(body[i - start]));
                assert(!all_digits(body));
            }
            return None;
        }
        proof {
            assert(body[i - start] == c);
            lemma_digits_value_take_step(body, i - start);
            assert(body.take(i - start + 1) == body.take(i - start).push(c));
        }
        assert(magnitude * 10 <= bound * 10) by (nonlinear_arith)
            requires
                magnitude <= bound,
        ;
        let d: u128 = (c as u32 - 48u32) as u128;
        assert(d <= 9);
        magnitude = magnitude * 10 + d;
        if magnitude > bound {
            proof {
                assert(all_digits(body.take(i - start + 1)));
                if all_digits(body) {
                    lemma_digits_value_monotone(body, i - start + 1, body.len() as int);
                    assert(body.take(body.len() as int) == body);
                }
            }
            return None;
        }
        i = i + 1;
    }
    proof {
        assert(body.take(len - start) == body);
    }
    if negative {
        let v: i128 = -(magnitude as i128);
        Some(v as i64)
    } else {
        if magnitude >= bound {
            None
        } else {
            Some(magnitude as i64)
        }
    }
}

/// The decimal text of `n`.
fn nat_chars(n: u64) -> (v: Vec<char>)
    ensures
        v@ == nat_text(n as nat),
{
    let mut x: u64 = n / 10;
    let mut v: Vec<char> = Vec::new();
    v.push(((n % 10) as u8 + 48u8) as char);
    proof {
        assert(digit_char((n % 10) as int) == ((n % 10) as u8 + 48u8) as char);
    }
    while x > 0
        invariant
            nat_text(n as nat) == (if x == 0 {
                Seq::<char>::empty()
            } else {
                nat_text(x as nat)
            }) + v@,
        decreases x,
    {
        let c = ((x % 10) as u8 + 48u8) as char;
        proof {
            assert(digit_char((x % 10) as int) == c);
            assert(nat_text(x as nat) == (if x / 10 == 0 {
                Seq::<char>::empty()
            } else {
                nat_text((x / 10) as nat)
            }).push(c));
        }
        let ghost old_v = v@;
        v.insert(0, c);
        proof {
            assert(v@ == seq![c] + old_v);
        }
        x = x / 10;
    }
    proof {
        assert(Seq::<char>::empty() + v@ == v@);
    }
    v
}

/// The decimal text of an `i64`, as `Display` writes it.
pub fn i64_chars(n: i64) -> (v: Vec<char>)
    ensures
        v@ == int_text(n as int),
{
    if n < 0 {
        let m: u64 = (-(n as i128)) as u64;
        let digits = nat_chars(m);
        let mut v: Vec<char> = Vec::new();
        v.push('-');
        let mut i: usize = 0;
        while i < digits.len()
            invariant
                i <= digits@.len(),
                v@ == seq!['-'] + digits@.take(i as int),
            decreases digits@.len() - i,
        {
            v.push(digits[i]);
            proof {
                assert(digits@.take(i + 1) == digits@.take(i as int).push(digits@[i as int]));
            }
            i = i + 1;
        }
        proof {
            assert(digits@.take(digits@.len() as int) == digits@);
        }
        v
    } else {
        nat_chars(n as u64)
    }
}

} // verus!
