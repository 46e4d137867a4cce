//! Decimal rendering and parsing of integers.

use vstd::prelude::*;

verus! {

/// The ASCII digit for `d` (`d < 10`).
pub open spec fn digit_char(d: nat) -> char {
    if d == 0 {
        '0'
    } else if d == 1 {
        '1'
    } else if d == 2 {
        '2'
    } else if d == 3 {
        '3'
    } else if d == 4 {
        '4'
    } else if d == 5 {
        '5'
    } else if d == 6 {
        '6'
    } else if d == 7 {
        '7'
    } else if d == 8 {
        '8'
    } else {
        '9'
    }
}

/// Whether `c` is one of `'0'..='9'`.
pub open spec fn is_ascii_digit(c: char) -> bool {
    '0' <= c && c <= '9'
}

/// The value of an ASCII digit.
pub open spec fn digit_value(c: char) -> nat {
    ((c as u32) - ('0' as u32)) as nat
}

/// Every character of `s` is an ASCII digit.
pub open spec fn all_digits(s: Seq<char>) -> bool {
    forall|i: int| 0 <= i < s.len() ==> is_ascii_digit(#[trigger] s[i])
}

/// The value of a string of decimal digits.
pub open spec fn digits_value(s: Seq<char>) -> nat
    decreases s.len(),
{
    if s.len() == 0 {
        0
    } else {
        digits_value(s.drop_last()) * 10 + digit_value(s.last())
    }
}

/// The decimal representation of `n`, without leading zeros (`"0"` for zero).
pub open spec fn decimal(n: nat) -> Seq<char>
    decreases n,
{
    if n < 10 {
        seq![digit_char(n)]
    } else {
        decimal(n / 10).push(digit_char(n % 10))
    }
}

/// `s` left-padded with `'0'` up to `width` characters (`format!("{:0>w$}")`).
pub open spec fn zero_pad(s: Seq<char>, width: nat) -> Seq<char> {
    if s.len() >= width {
        s
    } else {
        Seq::new((width - s.len()) as nat, |i: int| '0') + s
    }
}

/// What `str::parse` yields for an unsigned integer type, before the range
/// check: an optional `'+'`, then at least one ASCII digit and nothing else.
pub open spec fn parse_unsigned(s: Seq<char>) -> Option<nat> {
    let d = if s.len() > 0 && s[0] == '+' {
        s.drop_first()
    } else {
        s
    };
    if d.len() > 0 && all_digits(d) {
        Some(digits_value(d))
    } else {
        None
    }
}

/// `s.parse::<u64>()`, as an `Option`.
pub open spec fn parse_u64_spec(s: Seq<char>) -> Option<u64> {
    match parse_unsigned(s) {
        Some(v) => if v <= u64::MAX {
            Some(v as u64)
        } else {
            None
        },
        None => None,
    }
}

/// `s.parse::<usize>()`, as an `Option`.
pub open spec fn parse_usize_spec(s: Seq<char>) -> Option<usize> {
    match parse_unsigned(s) {
        Some(v) => if v <= usize::MAX {
            Some(v as usize)
        } else {
            None
        },
        None => None,
    }
}

/// The ASCII digit for `d`.
pub fn digit_to_char(d: u64) -> (c: char)
    requires
        d < 10,
    ensures
        c == digit_char(d as nat),
{
    if d == 0 {
        '0'
    } else if d == 1 {
        '1'
    } else if d == 2 {
        '2'
    } else if d == 3 {
        '3'
    } else if d == 4 {
        '4'
    } else if d == 5 {
        '5'
    } else if d == 6 {
        '6'
    } else if d == 7 {
        '7'
    } else if d == 8 {
        '8'
    } else {
        '9'
    }
}

/// The decimal representation of `n` (`n.to_string()`).
pub fn to_decimal(n: u64) -> (r: Vec<char>)
    ensures
        r@ == decimal(n as nat),
    decreases n,
{
    if n < 10 {
        let mut r: Vec<char> = Vec::new();
        r.push(digit_to_char(n));
        assert(r@ =~= seq![digit_char(n as nat)]);
        r
    } else {
        let mut r = to_decimal(n / 10);
        r.push(digit_to_char(n % 10));
        r
    }
}

/// `s` left-padded with zeros to `width` characters.
pub fn pad_zeros(s: &[char], width: usize) -> (r: Vec<char>)
    ensures
        r@ == zero_pad(s@, width as nat),
{
    if s.len() >= width {
        return crate::text::sub_vec(s, 0, s.len());
    }
    let mut r: Vec<char> = Vec::new();
    let mut i: usize = 0;
    let fill = width - s.len();
    while i < fill
        invariant
            i <= fill,
            r@ == Seq::new(i as nat, |k: int| '0'),
        decreases fill - i,
    {
        r.push('0');
        i = i + 1;
        assert(r@ =~= Seq::new(i as nat, |k: int| '0'));
    }
    let out = crate::text::concat(&r, s);
    out
}

/// Whether `c` is an ASCII digit.
pub fn char_is_digit(c: char) -> (r: bool)
    ensures
        r == is_ascii_digit(c),
{
    '0' <= c && c <= '9'
}

proof fn lemma_digits_value_monotone(s: Seq<char>, i: int)
    requires
        0 <= i <= s.len(),
    ensures
        digits_value(s.subrange(0, i)) <= digits_value(s),
    decreases s.len() - i,
{
    if i < s.len() {
        lemma_digits_value_monotone(s.drop_last(), i);
        assert(s.drop_last().subrange(0, i) =~= s.subrange(0, i));
    } else {
        assert(s.subrange(0, i) =~= s);
    }
}

/// `s.parse::<u64>().ok()`.
pub fn parse_u64(s: &[char]) -> (r: Option<u64>)
    ensures
        r == parse_u64_spec(s@),
{
    let start: usize = if s.len() > 0 && s[0] == '+' {
        1
    } else {
        0
    };
    let ghost d = if s@.len() > 0 && s@[0] == '+' {
        s@.drop_first()
    } else {
        s@
    };
    assert(d =~= s@.subrange(start as int, s@.len() as int));
    if start >= s.len() {
        return None;
    }
    let mut v: u64 = 0;
    let mut i: usize = start;
    while i < s.len()
        invariant
            start <= i <= s.len(),
            d == s@.subrange(start as int, s@.len() as int),
            d == (if s@.len() > 0 && s@[0] == '+' {
                s@.drop_first()
            } else {
                s@
            }),
            all_digits(s@.subrange(start as int, i as int)),
            v as nat == digits_value(s@.subrange(start as int, i as int)),
        decreases s.len() - i,
    {
        let ghost pre = s@.subrange(start as int, i as int);
        let ghost post = s@.subrange(start as int, i + 1);
        assert(post.drop_last() =~= pre);
        if !char_is_digit(s[i]) {
            assert(d[i - start] == s@[i as int]);
            assert(!all_digits(d));
            assert(parse_unsigned(s@) is None);
            return None;
        }
        let dv = (s[i] as u32 - '0' as u32) as u64;
        assert(dv as nat == digit_value(s@[i as int]));
        if v > (u64::MAX - dv) / 10 {
            proof {
                assert(digits_value(post) == digits_value(pre) * 10 + dv) by {
                    assert(post.last() == s@[i as int]);
                }
                assert(digits_value(post) > u64::MAX) by (nonlinear_arith)
                    requires
                        v > (u64::MAX - dv) / 10,
                        digits_value(post) == v * 10 + dv,
                        dv < 10,
                ;
                assert(d.subrange(0, i + 1 - start) =~= post);
                lemma_digits_value_monotone(d, i + 1 - start);
                assert(digits_value(d) > u64::MAX);
                if let Some(x) = parse_unsigned(s@) {
                    assert(x == digits_value(d));
                }
            }
            return None;
        }
        assert(post.last() == s@[i as int]);
        v = v * 10 + dv;
        i = i + 1;
        assert forall|k: int| 0 <= k < post.len() implies is_ascii_digit(#[trigger] post[k]) by {
            if k < pre.len() {
                assert(post[k] == pre[k]);
            }
        }
    }
    Some(v)
}

/// `s.parse::<usize>().ok()`.
pub fn parse_usize(s: &[char]) -> (r: Option<usize>)
    ensures
        r == parse_usize_spec(s@),
{
    match parse_u64(s) {
        Some(v) => {
            if v <= usize::MAX as u64 {
                Some(v as usize)
            } else {
                None
            }
        },
        None => {
            proof {
                if let Some(x) = parse_unsigned(s@) {
                    assert(x > u64::MAX);
                }
            }
            None
        },
    }
}

/// `s.parse::<i64>()`, as an `Option`: an optional sign, then at least one
/// ASCII digit and nothing else, in range.
pub open spec fn parse_i64_spec(s: Seq<char>) -> Option<i64> {
    if s.len() > 0 && s[0] == '-' {
        let d = s.drop_first();
        if d.len() > 0 && all_digits(d) && digits_value(d) <= 0x8000_0000_0000_0000 {
            Some((-(digits_value(d) as int)) as i64)
        } else {
            None
        }
    } else {
        match parse_unsigned(s) {
            Some(v) => if v <= i64::MAX {
                Some(v as i64)
            } else {
                None
            },
            None => None,
        }
    }
}

/// `s.parse::<i64>().ok()`.
pub fn parse_i64(s: &[char]) -> (r: Option<i64>)
    ensures
        r == parse_i64_spec(s@),
{
    if s.len() > 0 && s[0] == '-' {
        let mut d: Vec<char> = Vec::new();
        let mut i: usize = 1;
        while i < s.len()
            invariant
                1 <= i <= s@.len(),
                d@ == s@.subrange(1, i as int),
            decreases s.len() - i,
        {
            d.push(s[i]);
            i = i + 1;
        }
        assert(d@ =~= s@.drop_first());
        if d.len() == 0 || d[0] == '+' {
            return None;
        }
        assert(parse_unsigned(d@) == if all_digits(d@) {
            Some(digits_value(d@))
        } else {
            None::<nat>
        });
        match parse_u64(&d) {
            Some(v) => {
                if v <= 0x8000_0000_0000_0000 {
                    if v == 0x8000_0000_0000_0000 {
                        Some(i64::MIN)
                    } else {
                        Some(-(v as i64))
                    }
                } else {
                    None
                }
            },
            None => {
                proof {
                    if all_digits(d@) {
                        assert(digits_value(d@) > u64::MAX);
                    }
                }
                None
            },
        }
    } else {
        match parse_u64(s) {
            Some(v) => {
                if v <= i64::MAX as u64 {
                    Some(v as i64)
                } else {
                    None
                }
            },
            None => {
                proof {
                    if let Some(x) = parse_unsigned(s@) {
                        assert(x > u64::MAX);
                    }
                }
                None
            },
        }
    }
}

} // verus!
