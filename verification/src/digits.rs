//! Numbers written out in decimal and in hexadecimal.
use vstd::prelude::*;
use vstd::string::*;

verus! {

/// `String::push` appends one character.
pub assume_specification[ std::string::String::push ](s: &mut std::string::String, c: char)
    ensures
        final(s)@ == old(s)@.push(c),
;

/// The character of a digit below sixteen; letters are lower case.
pub open spec fn digit_char(d: nat) -> char {
    if d < 10 {
        (48 + d) as char
    } else {
        (87 + d) as char
    }
}

/// `n` written in the given base, without leading zeros.
pub open spec fn numeral(n: nat, base: nat) -> Seq<char>
    decreases n,
{
    if base < 2 || n < base {
        seq![digit_char(n)]
    } else {
        proof {
            assert(n / base < n) by (nonlinear_arith)
                requires
                    n >= base,
                    base >= 2,
            ;
        }
        numeral(n / base, base).push(digit_char(n % base))
    }
}

/// `n` in decimal.
pub open spec fn dec(n: int) -> Seq<char> {
    if n < 0 {
        seq!['-'] + numeral((-n) as nat, 10)
    } else {
        numeral(n as nat, 10)
    }
}

/// `n` in lower-case hexadecimal.
pub open spec fn hex(n: nat) -> Seq<char> {
    numeral(n, 16)
}

/// `n` in decimal, filled up with a zero to two places.
pub open spec fn dec2(n: nat) -> Seq<char> {
    if n < 10 {
        seq!['0'] + dec(n as int)
    } else {
        dec(n as int)
    }
}

/// The number that a run of decimal digits stands for.
pub open spec fn digits_value(s: Seq<char>) -> nat
    decreases s.len(),
{
    if s.len() == 0 {
        0
    } else {
        (digits_value(s.drop_last()) * 10 + (s.last() as u32 - 48)) as nat
    }
}

/// Whether a character is a decimal digit.
pub open spec fn is_digit(c: char) -> bool {
    48 <= c as u32 <= 57
}

pub open spec fn all_digits(s: Seq<char>) -> bool {
    forall|i: int| 0 <= i < s.len() ==> is_digit(#[trigger] s[i])
}

/// A numeral consists of digits and is read back as the number it was written for.
pub proof fn lemma_numeral_value(n: nat)
    ensures
        numeral(n, 10).len() > 0,
        all_digits(numeral(n, 10)),
        digits_value(numeral(n, 10)) == n,
    decreases n,
{
    if n >= 10 {
        lemma_numeral_value(n / 10);
        let t = numeral(n, 10);
        assert(t.drop_last() =~= numeral(n / 10, 10));
        assert(t.last() == digit_char(n % 10));
    } else {
        let t = numeral(n, 10);
        assert(t.drop_last() =~= Seq::<char>::empty());
        assert(digits_value(t.drop_last()) == 0);
        assert(t.last() == digit_char(n));
    }
}

/// Two numbers with the same decimal text are the same number.
pub proof fn lemma_dec_injective(a: int, b: int)
    requires
        dec(a) == dec(b),
    ensures
        a == b,
{
    let x = if a < 0 { -a } else { a };
    let y = if b < 0 { -b } else { b };
    lemma_numeral_value(x as nat);
    lemma_numeral_value(y as nat);
    if a < 0 {
        assert(dec(a)[0] == '-');
        assert(dec(a).subrange(1, dec(a).len() as int) =~= numeral(x as nat, 10));
    } else {
        assert(is_digit(dec(a)[0]));
    }
    if b < 0 {
        assert(dec(b)[0] == '-');
        assert(dec(b).subrange(1, dec(b).len() as int) =~= numeral(y as nat, 10));
    } else {
        assert(is_digit(dec(b)[0]));
    }
}

fn digit_of(d: u64) -> (c: char)
    requires
        d < 16,
    ensures
        c == digit_char(d as nat),
{
    if d < 10 {
        (48 + d as u8) as char
    } else {
        (87 + d as u8) as char
    }
}

fn push_numeral(out: &mut String, n: u64, base: u64)
    requires
        2 <= base <= 16,
    ensures
        final(out)@ == old(out)@ + numeral(n as nat, base as nat),
    decreases n,
{
    if n < base {
        out.push(digit_of(n));
        assert(out@ =~= old(out)@ + numeral(n as nat, base as nat));
    } else {
        assert(n / base < n) by (nonlinear_arith)
            requires
                n >= base,
                base >= 2,
        ;
        push_numeral(out, n / base, base);
        out.push(digit_of(n % base));
        assert(out@ =~= old(out)@ + numeral(n as nat, base as nat));
    }
}

/// `n` in decimal.
pub fn dec_u64(n: u64) -> (r: String)
    ensures
        r@ == dec(n as int),
{
    let mut out = String::new();
    push_numeral(&mut out, n, 10);
    assert(out@ =~= dec(n as int));
    out
}

/// `n` in decimal.
pub fn dec_usize(n: usize) -> (r: String)
    ensures
        r@ == dec(n as int),
{
    dec_u64(n as u64)
}

/// `n` in decimal.
pub fn dec_i64(n: i64) -> (r: String)
    ensures
        r@ == dec(n as int),
{
    let mut out = String::new();
    if n < 0 {
        out.push('-');
        let m: u64 = if n == i64::MIN {
            9223372036854775808
        } else {
            (-n) as u64
        };
        push_numeral(&mut out, m, 10);
        assert(out@ =~= dec(n as int));
    } else {
        push_numeral(&mut out, n as u64, 10);
        assert(out@ =~= dec(n as int));
    }
    out
}

/// `n` in lower-case hexadecimal.
pub fn hex_u64(n: u64) -> (r: String)
    ensures
        r@ == hex(n as nat),
{
    let mut out = String::new();
    push_numeral(&mut out, n, 16);
    assert(out@ =~= hex(n as nat));
    out
}

/// `n` in decimal, filled up with a zero to two places.
pub fn dec2_u64(n: u64) -> (r: String)
    ensures
        r@ == dec2(n as nat),
{
    let mut out = String::new();
    if n < 10 {
        out.push('0');
    }
    push_numeral(&mut out, n, 10);
    assert(out@ =~= dec2(n as nat));
    out
}

/// The number that a text stands for, read as a `u32`: decimal digits, with or without a
/// plus sign before them.
pub open spec fn parse_u32(s: Seq<char>) -> Option<u32> {
    let t = if s.len() > 0 && s[0] == '+' {
        s.subrange(1, s.len() as int)
    } else {
        s
    };
    if t.len() > 0 && all_digits(t) && digits_value(t) <= u32::MAX {
        Some(digits_value(t) as u32)
    } else {
        None
    }
}

/// A number is read back from its decimal text.
pub proof fn lemma_parse_dec(n: u32)
    ensures
        parse_u32(dec(n as int)) == Some(n),
{
    lemma_numeral_value(n as nat);
    assert(is_digit(dec(n as int)[0]));
}

/// Reads a text as a `u32`.
pub fn read_u32(s: &str) -> (r: Option<u32>)
    ensures
        r == parse_u32(s@),
{
    let v = crate::text::chars_of(s);
    let from: usize = if v.len() > 0 && v[0] == '+' {
        1
    } else {
        0
    };
    let ghost t = v@.subrange(from as int, v@.len() as int);
    assert(from == 0 ==> t =~= v@);
    if from == v.len() {
        return None;
    }
    let mut acc: u64 = 0;
    let mut big = false;
    let mut i: usize = from;
    while i < v.len()
        invariant
            from <= i <= v@.len(),
            v@ == s@,
            t == v@.subrange(from as int, v@.len() as int),
            t == if s@.len() > 0 && s@[0] == '+' {
                s@.subrange(1, s@.len() as int)
            } else {
                s@
            },
            forall|k: int| 0 <= k < i - from ==> is_digit(#[trigger] t[k]),
            big ==> digits_value(t.subrange(0, i - from)) > u32::MAX,
            !big ==> acc == digits_value(t.subrange(0, i - from)) && acc <= u32::MAX,
        decreases v@.len() - i,
    {
        let c = v[i];
        let u: u32 = c as u32;
        assert(t[i - from] == v@[i as int]);
        if u < 48 || u > 57 {
            assert(!is_digit(t[i - from]));
            return None;
        }
        proof {
            let now = t.subrange(0, i - from + 1);
            assert(now.drop_last() =~= t.subrange(0, i - from));
            assert(now.last() == v@[i as int]);
        }
        if !big {
            acc = acc * 10 + (u as u64 - 48);
            if acc > u32::MAX as u64 {
                big = true;
            }
        }
        i += 1;
    }
    assert(t.subrange(0, t.len() as int) =~= t);
    if big {
        None
    } else {
        Some(acc as u32)
    }
}

/// The number that a text stands for, read as an `i64`: decimal digits, with or without a
/// sign before them.
pub open spec fn parse_i64(s: Seq<char>) -> Option<i64> {
    let t = if s.len() > 0 && (s[0] == '+' || s[0] == '-') {
        s.subrange(1, s.len() as int)
    } else {
        s
    };
    let v = if s.len() > 0 && s[0] == '-' {
        -digits_value(t)
    } else {
        digits_value(t) as int
    };
    if t.len() > 0 && all_digits(t) && i64::MIN <= v <= i64::MAX {
        Some(v as i64)
    } else {
        None
    }
}

/// Reads a text as an `i64`.
pub fn read_i64(s: &str) -> (r: Option<i64>)
    ensures
        r == parse_i64(s@),
{
    let v = crate::text::chars_of(s);
    let negative = v.len() > 0 && v[0] == '-';
    let from: usize = if v.len() > 0 && (v[0] == '+' || v[0] == '-') {
        1
    } else {
        0
    };
    let ghost t = v@.subrange(from as int, v@.len() as int);
    assert(from == 0 ==> t =~= v@);
    if from == v.len() {
        return None;
    }
    let limit: u128 = 0x8000_0000_0000_0000;
    let mut acc: u128 = 0;
    let mut big = false;
    let mut i: usize = from;
    while i < v.len()
        invariant
            from <= i <= v@.len(),
            v@ == s@,
            limit == 0x8000_0000_0000_0000,
            t == v@.subrange(from as int, v@.len() as int),
            t == if s@.len() > 0 && (s@[0] == '+' || s@[0] == '-') {
                s@.subrange(1, s@.len() as int)
            } else {
                s@
            },
            forall|k: int| 0 <= k < i - from ==> is_digit(#[trigger] t[k]),
            big ==> digits_value(t.subrange(0, i - from)) > limit,
            !big ==> acc == digits_value(t.subrange(0, i - from)) && acc <= limit,
        decreases v@.len() - i,
    {
        let c = v[i];
        let u: u32 = c as u32;
        assert(t[i - from] == v@[i as int]);
        if u < 48 || u > 57 {
            assert(!is_digit(t[i - from]));
            return None;
        }
        proof {
            let now = t.subrange(0, i - from + 1);
            assert(now.drop_last() =~= t.subrange(0, i - from));
            assert(now.last() == v@[i as int]);
        }
        if !big {
            acc = acc * 10 + (u as u128 - 48);
            if acc > limit {
                big = true;
            }
        }
        i += 1;
    }
    assert(t.subrange(0, t.len() as int) =~= t);
    if big {
        None
    } else if negative {
        Some((-(acc as i128)) as i64)
    } else if acc < limit {
        Some(acc as i64)
    } else {
        None
    }
}

/// The number that a text stands for, read as a `usize`: decimal digits, with or without a
/// plus sign before them.
pub open spec fn parse_usize(s: Seq<char>) -> Option<usize> {
    let t = if s.len() > 0 && s[0] == '+' {
        s.subrange(1, s.len() as int)
    } else {
        s
    };
    if t.len() > 0 && all_digits(t) && digits_value(t) <= usize::MAX {
        Some(digits_value(t) as usize)
    } else {
        None
    }
}

/// Reads a text as a `usize`.
pub fn read_usize(s: &str) -> (r: Option<usize>)
    ensures
        r == parse_usize(s@),
{
    let v = crate::text::chars_of(s);
    let from: usize = if v.len() > 0 && v[0] == '+' {
        1
    } else {
        0
    };
    let ghost t = v@.subrange(from as int, v@.len() as int);
    assert(from == 0 ==> t =~= v@);
    if from == v.len() {
        return None;
    }
    let mut acc: u128 = 0;
    let mut big = false;
    let mut i: usize = from;
    while i < v.len()
        invariant
            from <= i <= v@.len(),
            v@ == s@,
            t == v@.subrange(from as int, v@.len() as int),
            t == if s@.len() > 0 && s@[0] == '+' {
                s@.subrange(1, s@.len() as int)
            } else {
                s@
            },
            forall|k: int| 0 <= k < i - from ==> is_digit(#[trigger] t[k]),
            big ==> digits_value(t.subrange(0, i - from)) > usize::MAX,
            !big ==> acc == digits_value(t.subrange(0, i - from)) && acc <= usize::MAX,
        decreases v@.len() - i,
    {
        let c = v[i];
        let u: u32 = c as u32;
        assert(t[i - from] == v@[i as int]);
        if u < 48 || u > 57 {
            assert(!is_digit(t[i - from]));
            return None;
        }
        proof {
            let now = t.subrange(0, i - from + 1);
            assert(now.drop_last() =~= t.subrange(0, i - from));
            assert(now.last() == v@[i as int]);
        }
        if !big {
            acc = acc * 10 + (u as u128 - 48);
            if acc > usize::MAX as u128 {
                big = true;
            }
        }
        i += 1;
    }
    assert(t.subrange(0, t.len() as int) =~= t);
    if big {
        None
    } else {
        Some(acc as usize)
    }
}

} // verus!
