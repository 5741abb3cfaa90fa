//! Plain values that rendered fields can hold, and their textual
//! forms: decimal digit strings for integers, and a fixed-point
//! decimal type whose formatting (with a precision, rounding ties to
//! even) is defined exactly by spec functions.

use vstd::prelude::*;

verus! {

pub open spec fn digit_char(d: int) -> char {
    if d == 0 {
        '0'
    } else if d == 1 {
        '1'
    } else if d == 2 {
        '2'
    } else if d == 3 {
        '3'
    } else if d == 4 {
        '4'
    } else if d == 5 {
        '5'
    } else if d == 6 {
        '6'
    } else if d == 7 {
        '7'
    } else if d == 8 {
        '8'
    } else {
        '9'
    }
}

/// The decimal digit string of a natural number, without leading
/// zeros (`0` itself is the single digit `0`).
pub open spec fn spec_digits(n: nat) -> Seq<char>
    decreases n,
{
    if n < 10 {
        seq![digit_char(n as int)]
    } else {
        spec_digits(n / 10) + seq![digit_char((n % 10) as int)]
    }
}

/// The textual form of a signed integer: a `-` sign ahead of the
/// digits of its magnitude.
pub open spec fn spec_int_text(i: int) -> Seq<char> {
    if i < 0 {
        seq!['-'] + spec_digits((-i) as nat)
    } else {
        spec_digits(i as nat)
    }
}

fn exec_digit_char(d: u64) -> (r: char)
    requires
        d < 10,
    ensures
        r == digit_char(d as int),
{
    if d == 0 {
        '0'
    } else if d == 1 {
        '1'
    } else if d == 2 {
        '2'
    } else if d == 3 {
        '3'
    } else if d == 4 {
        '4'
    } else if d == 5 {
        '5'
    } else if d == 6 {
        '6'
    } else if d == 7 {
        '7'
    } else if d == 8 {
        '8'
    } else {
        '9'
    }
}

/// Render an unsigned integer as its decimal digit string.
pub fn u64_to_string(n: u64) -> (r: String)
    ensures
        r@ == spec_digits(n as nat),
    decreases n,
{
    if n < 10 {
        let mut s = String::new();
        crate::text::push_char(&mut s, exec_digit_char(n));
        proof {
            assert(s@ =~= spec_digits(n as nat));
        }
        s
    } else {
        let mut s = u64_to_string(n / 10);
        crate::text::push_char(&mut s, exec_digit_char(n % 10));
        proof {
            assert(s@ =~= spec_digits(n as nat));
        }
        s
    }
}

/// Render a signed integer as its decimal digit string with sign.
pub fn i64_to_string(n: i64) -> (r: String)
    ensures
        r@ == spec_int_text(n as int),
{
    if n < 0 {
        let wide: i128 = n as i128;
        let mag: u64 = (-wide) as u64;
        let mut s = String::new();
        crate::text::push_char(&mut s, '-');
        let digits = u64_to_string(mag);
        let out = s.concat(digits.as_str());
        proof {
            assert(out@ =~= spec_int_text(n as int));
        }
        out
    } else {
        let out = u64_to_string(n as u64);
        out
    }
}

/// A run of `k` zero characters.
pub open spec fn zeros(k: nat) -> Seq<char>
    decreases k,
{
    if k == 0 {
        Seq::empty()
    } else {
        zeros((k - 1) as nat).push('0')
    }
}

/// Insert a decimal point `p` digits from the right of the digit
/// string `ds`, writing a leading `0` where the integer part would
/// be empty; `p == 0` leaves the digits untouched.
pub open spec fn point_text(ds: Seq<char>, p: nat) -> Seq<char> {
    if p == 0 {
        ds
    } else if ds.len() > p {
        ds.take(ds.len() - p) + seq!['.'] + ds.skip(ds.len() - p)
    } else {
        seq!['0', '.'] + zeros((p - ds.len()) as nat) + ds
    }
}

pub open spec fn pow10(k: nat) -> nat
    decreases k,
{
    if k == 0 {
        1
    } else {
        10 * pow10((k - 1) as nat)
    }
}

/// Drop the last `k` digits of `m`, rounding to nearest and ties to
/// even.
pub open spec fn round_half_even(m: nat, k: nat) -> nat {
    let q = m / pow10(k);
    let r = m % pow10(k);
    let h = pow10(k) / 2;
    if r > h || (r == h && q % 2 == 1) {
        q + 1
    } else {
        q
    }
}

/// A fixed-point decimal: the value `mantissa / 10^scale`, negated
/// when `negative` holds. `-14.5` is `(true, 145, 1)`.
#[derive(Clone, Copy, Debug)]
pub struct Decimal {
    pub negative: bool,
    pub mantissa: u64,
    pub scale: u32,
}

impl Decimal {
    /// The scale must leave `10^scale` representable in a machine
    /// word for the rounding arithmetic.
    pub open spec fn wf(self) -> bool {
        self.scale <= 19
    }

    pub fn new(negative: bool, mantissa: u64, scale: u32) -> (r: Decimal)
        requires
            scale <= 19,
        ensures
            r == (Decimal { negative, mantissa, scale }),
            r.wf(),
    {
        Decimal { negative, mantissa, scale }
    }
}

/// The text of `d` rendered with exactly `p` decimal places:
/// rounded half-to-even where `p` is below the stored scale, padded
/// with zeros where it is above, the sign kept in front.
pub open spec fn spec_dec_fmt(d: Decimal, p: nat) -> Seq<char> {
    let sign: Seq<char> = if d.negative {
        seq!['-']
    } else {
        Seq::empty()
    };
    if p >= d.scale {
        sign + point_text(spec_digits(d.mantissa as nat) + zeros((p - d.scale) as nat), p)
    } else {
        sign + point_text(spec_digits(round_half_even(d.mantissa as nat, (d.scale - p) as nat)), p)
    }
}

/// The default text of `d`: all stored decimal places.
pub open spec fn spec_dec_text(d: Decimal) -> Seq<char> {
    spec_dec_fmt(d, d.scale as nat)
}

fn pow10_u64(k: u32) -> (r: u64)
    requires
        k <= 19,
    ensures
        r as nat == pow10(k as nat),
        r >= 1,
{
    proof {
        reveal_with_fuel(pow10, 21);
        assert(pow10(19) == 10_000_000_000_000_000_000);
    }
    let mut i: u32 = 0;
    let mut acc: u64 = 1;
    while i < k
        invariant
            i <= k,
            k <= 19,
            acc as nat == pow10(i as nat),
            pow10(19) == 10_000_000_000_000_000_000,
        decreases k - i,
    {
        proof {
            lemma_pow10_le(i as nat + 1, 19);
        }
        acc = acc * 10;
        i = i + 1;
    }
    acc
}

pub proof fn lemma_pow10_le(a: nat, b: nat)
    requires
        a <= b,
    ensures
        pow10(a) <= pow10(b),
    decreases b,
{
    if a < b {
        lemma_pow10_le(a, (b - 1) as nat);
        assert(pow10(b) == 10 * pow10((b - 1) as nat));
    }
}

/// Build the digit string of `d` with exactly `p` decimal places.
pub fn format_decimal(d: &Decimal, p: usize) -> (r: String)
    requires
        d.wf(),
    ensures
        r@ == spec_dec_fmt(*d, p as nat),
{
    let scale = d.scale as usize;
    let digits: String = if p >= scale {
        let base = u64_to_string(d.mantissa);
        let mut v = crate::text::str_chars(base.as_str());
        let mut padded: usize = 0;
        while padded < p - scale
            invariant
                padded <= p - scale,
                p >= scale,
                v@ == spec_digits(d.mantissa as nat) + zeros(padded as nat),
            decreases p - scale - padded,
        {
            v.push('0');
            proof {
                assert(spec_digits(d.mantissa as nat) + zeros((padded + 1) as nat) =~= (
                spec_digits(d.mantissa as nat) + zeros(padded as nat)).push('0'));
            }
            padded = padded + 1;
        }
        crate::text::chars_string(&v)
    } else {
        let k = d.scale - (p as u32);
        let p10 = pow10_u64(k);
        let q = d.mantissa / p10;
        let rem = d.mantissa % p10;
        let h = p10 / 2;
        proof {
            assert(pow10(k as nat) >= 10) by {
                lemma_pow10_le(1, k as nat);
                reveal_with_fuel(pow10, 2);
            }
            vstd::arithmetic::div_mod::lemma_div_is_ordered_by_denominator(
                d.mantissa as int,
                10,
                p10 as int,
            );
        }
        let rounded: u64 = if rem > h || (rem == h && q % 2 == 1) {
            q + 1
        } else {
            q
        };
        proof {
            assert(rounded as nat == round_half_even(d.mantissa as nat, k as nat));
        }
        u64_to_string(rounded)
    };
    let pointed = insert_point(&digits, p);
    if d.negative {
        let mut out = String::new();
        crate::text::push_char(&mut out, '-');
        let out = out.concat(pointed.as_str());
        proof {
            assert(out@ =~= spec_dec_fmt(*d, p as nat));
        }
        out
    } else {
        proof {
            assert(pointed@ =~= spec_dec_fmt(*d, p as nat));
        }
        pointed
    }
}

/// The default text of a decimal: every stored decimal place kept.
pub fn decimal_to_string(d: &Decimal) -> (r: String)
    requires
        d.wf(),
    ensures
        r@ == spec_dec_text(*d),
{
    format_decimal(d, d.scale as usize)
}

fn insert_point(digits: &String, p: usize) -> (r: String)
    ensures
        r@ == point_text(digits@, p as nat),
{
    let n = digits.as_str().unicode_len();
    if p == 0 {
        let r = digits.clone();
        r
    } else if n > p {
        let v = crate::text::str_chars(digits.as_str());
        let mut out: Vec<char> = Vec::new();
        let mut i: usize = 0;
        while i < n
            invariant
                i <= n,
                n == v.len(),
                v@ == digits@,
                n > p,
                p >= 1,
                out@ == if i <= n - p {
                    digits@.take(i as int)
                } else {
                    digits@.take((n - p) as int) + seq!['.'] + digits@.subrange(
                        (n - p) as int,
                        i as int,
                    )
                },
            decreases n - i,
        {
            if i == n - p {
                out.push('.');
            }
            out.push(v[i]);
            i = i + 1;
        }
        proof {
            assert(digits@.subrange((n - p) as int, n as int) =~= digits@.skip((n - p) as int));
            assert(out@ =~= point_text(digits@, p as nat));
        }
        crate::text::chars_string(&out)
    } else {
        let mut out: Vec<char> = Vec::new();
        out.push('0');
        out.push('.');
        let mut padded: usize = 0;
        while padded < p - n
            invariant
                padded <= p - n,
                p >= n,
                out@ == seq!['0', '.'] + zeros(padded as nat),
            decreases p - n - padded,
        {
            out.push('0');
            proof {
                assert(seq!['0', '.'] + zeros((padded + 1) as nat) =~= (seq!['0', '.'] + zeros(
                    padded as nat,
                )).push('0'));
            }
            padded = padded + 1;
        }
        let v = crate::text::str_chars(digits.as_str());
        let mut i: usize = 0;
        while i < n
            invariant
                i <= n,
                n == v.len(),
                v@ == digits@,
                out@ == seq!['0', '.'] + zeros((p - n) as nat) + digits@.take(i as int),
            decreases n - i,
        {
            out.push(v[i]);
            proof {
                assert(seq!['0', '.'] + zeros((p - n) as nat) + digits@.take((i + 1) as int) =~= (
                seq!['0', '.'] + zeros((p - n) as nat) + digits@.take(i as int)).push(
                    digits@[i as int],
                ));
            }
            i = i + 1;
        }
        proof {
            assert(digits@.take(n as int) =~= digits@);
            assert(out@ =~= point_text(digits@, p as nat));
        }
        crate::text::chars_string(&out)
    }
}

/// A scalar value a field can carry: the shapes whose default
/// textual form the renderer knows.
#[derive(Clone, Debug)]
pub enum Scalar {
    Str(String),
    Uint(u64),
    Int(i64),
    Bool(bool),
    Dec(Decimal),
}

impl Scalar {
    pub open spec fn wf(self) -> bool {
        match self {
            Scalar::Dec(d) => d.wf(),
            _ => true,
        }
    }
}

/// The default textual form of a scalar, as its host rendering
/// would print it.
pub open spec fn spec_scalar_text(s: Scalar) -> Seq<char> {
    match s {
        Scalar::Str(t) => t@,
        Scalar::Uint(n) => spec_digits(n as nat),
        Scalar::Int(n) => spec_int_text(n as int),
        Scalar::Bool(b) => if b {
            seq!['t', 'r', 'u', 'e']
        } else {
            seq!['f', 'a', 'l', 's', 'e']
        },
        Scalar::Dec(d) => spec_dec_text(d),
    }
}

/// The textual form of a scalar under an optional precision: a
/// decimal is rendered to that many places, a string is truncated
/// to that many characters, and integers ignore it.
pub open spec fn spec_scalar_fmt(s: Scalar, p: Option<nat>) -> Seq<char> {
    match p {
        Option::None => spec_scalar_text(s),
        Option::Some(p) => match s {
            Scalar::Str(t) => if t@.len() <= p {
                t@
            } else {
                t@.take(p as int)
            },
            Scalar::Uint(n) => spec_digits(n as nat),
            Scalar::Int(n) => spec_int_text(n as int),
            Scalar::Bool(b) => {
                let t = spec_scalar_text(Scalar::Bool(b));
                if t.len() <= p {
                    t
                } else {
                    t.take(p as int)
                }
            },
            Scalar::Dec(d) => spec_dec_fmt(d, p),
        },
    }
}

/// A value-preserving copy of a scalar.
pub fn scalar_dup(s: &Scalar) -> (r: Scalar)
    ensures
        r == *s,
{
    match s {
        Scalar::Str(t) => Scalar::Str(t.clone()),
        Scalar::Uint(n) => Scalar::Uint(*n),
        Scalar::Int(n) => Scalar::Int(*n),
        Scalar::Bool(b) => Scalar::Bool(*b),
        Scalar::Dec(d) => Scalar::Dec(*d),
    }
}

pub fn scalar_to_text(s: &Scalar) -> (r: String)
    requires
        s.wf(),
    ensures
        r@ == spec_scalar_text(*s),
{
    match s {
        Scalar::Str(t) => t.clone(),
        Scalar::Uint(n) => u64_to_string(*n),
        Scalar::Int(n) => i64_to_string(*n),
        Scalar::Bool(b) => {
            if *b {
                let r = "true".to_owned();
                proof {
                    reveal_strlit("true");
                    assert(r@ =~= spec_scalar_text(*s));
                }
                r
            } else {
                let r = "false".to_owned();
                proof {
                    reveal_strlit("false");
                    assert(r@ =~= spec_scalar_text(*s));
                }
                r
            }
        },
        Scalar::Dec(d) => decimal_to_string(d),
    }
}

fn truncate_chars(t: &String, p: usize) -> (r: String)
    ensures
        r@ == if t@.len() <= p as nat {
            t@
        } else {
            t@.take(p as int)
        },
{
    let n = t.as_str().unicode_len();
    if n <= p {
        t.clone()
    } else {
        let r = t.as_str().substring_char(0, p);
        proof {
            assert(r@ =~= t@.take(p as int));
        }
        r.to_owned()
    }
}

pub fn scalar_format(s: &Scalar, p: Option<usize>) -> (r: String)
    requires
        s.wf(),
    ensures
        r@ == spec_scalar_fmt(*s, match p {
            Option::None => Option::None,
            Option::Some(p) => Option::Some(p as nat),
        }),
{
    match p {
        Option::None => scalar_to_text(s),
        Option::Some(p) => match s {
            Scalar::Str(t) => truncate_chars(t, p),
            Scalar::Uint(n) => u64_to_string(*n),
            Scalar::Int(n) => i64_to_string(*n),
            Scalar::Bool(b) => {
                let t = scalar_to_text(s);
                let r = truncate_chars(&t, p);
                r
            },
            Scalar::Dec(d) => format_decimal(d, p),
        },
    }
}

} // verus!
