//! Parameter values, their textual forms, and template substitution.
//!
//! A parameter is written as a single value (`"7"`, `"abc"`), a range
//! (`"1:5"`, `"0:10:2"`, `"0.0:1.0:0.5"`) or a list (`"[1, 2, 3]"`,
//! `"['a','b']"`). Numbers with a fractional part are held exactly, as a
//! mantissa and a count of decimal places, so that every value of a range is
//! the exact decimal `start + k * step`.
//!
//! Templates refer to parameters as `{name}` or `{name:format}`, where the
//! format is `[0][width][.precision][d|f|s]`.

use vstd::prelude::*;

use crate::text::{
    all_digits, ascii_digit, chars_of, trim, trim_chars, digits_to_u128, digits_value, extend_chars, i128_text,
    extend_str, int_text, is_ascii_digit, nat_digits, slice_chars, string_of, u128_digits,
};

verus! {

/// A decimal number: `mantissa / 10^scale`.
#[derive(Clone, Copy, Debug, PartialEq, Eq)]
pub struct Decimal {
    pub mantissa: i64,
    pub scale: u32,
}

/// A value that a parameter takes in one combination.
#[derive(Debug, PartialEq)]
pub enum ParameterValue {
    Integer(i64),
    Float(Decimal),
    String(String),
}

/// The mathematical value of a [`ParameterValue`].
pub enum ParamVal {
    Int(int),
    /// `mantissa / 10^scale`
    Dec(int, nat),
    Str(Seq<char>),
}

impl View for ParameterValue {
    type V = ParamVal;

    open spec fn view(&self) -> ParamVal {
        match self {
            ParameterValue::Integer(i) => ParamVal::Int(*i as int),
            ParameterValue::Float(d) => ParamVal::Dec(d.mantissa as int, d.scale as nat),
            ParameterValue::String(s) => ParamVal::Str(s@),
        }
    }
}

/// The largest scale and the largest precision this library formats with.
pub const MAX_DECIMAL_PLACES: u32 = 18;

/// The largest field width a format may ask for.
pub const MAX_FORMAT_WIDTH: u32 = 4096;

pub open spec fn pow10(n: nat) -> nat
    decreases n,
{
    if n == 0 {
        1
    } else {
        10 * pow10((n - 1) as nat)
    }
}

pub proof fn lemma_pow10_mono(a: nat, b: nat)
    requires
        a <= b,
    ensures
        1 <= pow10(a) <= pow10(b),
    decreases b,
{
    if b > a {
        lemma_pow10_mono(a, (b - 1) as nat);
    } else if a > 0 {
        lemma_pow10_mono((a - 1) as nat, (a - 1) as nat);
    }
}

pub proof fn lemma_pow10_bounds(n: nat)
    ensures
        pow10(n) >= 1,
        n <= 38 ==> pow10(n) <= 100_000_000_000_000_000_000_000_000_000_000_000_000,
        n <= 37 ==> pow10(n) <= 10_000_000_000_000_000_000_000_000_000_000_000_000,
        n <= 18 ==> pow10(n) <= 1_000_000_000_000_000_000,
{
    reveal_with_fuel(pow10, 40);
    assert(pow10(18) == 1_000_000_000_000_000_000);
    assert(pow10(37) == 10_000_000_000_000_000_000_000_000_000_000_000_000);
    assert(pow10(38) == 100_000_000_000_000_000_000_000_000_000_000_000_000);
    if n <= 18 {
        lemma_pow10_mono(n, 18);
    }
    if n <= 37 {
        lemma_pow10_mono(n, 37);
    }
    if n <= 38 {
        lemma_pow10_mono(n, 38);
    }
    lemma_pow10_mono(n, n);
}

pub fn pow10_u128(n: u32) -> (r: u128)
    requires
        n <= 38,
    ensures
        r == pow10(n as nat),
{
    let mut r: u128 = 1;
    let mut i: u32 = 0;
    while i < n
        invariant
            i <= n <= 38,
            r == pow10(i as nat),
        decreases n - i,
    {
        proof {
            lemma_pow10_bounds(i as nat);
        }
        r = r * 10;
        i = i + 1;
    }
    r
}

pub open spec fn abs(i: int) -> nat {
    if i < 0 {
        (-i) as nat
    } else {
        i as nat
    }
}

/// `n` copies of `c`.
pub open spec fn repeat(c: char, n: nat) -> Seq<char> {
    Seq::new(n, |_i: int| c)
}

/// The digits of `n`, widened with leading zeros to at least `k` places.
pub open spec fn zero_padded(n: nat, k: nat) -> Seq<char> {
    let d = nat_digits(n);
    if d.len() < k {
        repeat('0', (k - d.len()) as nat) + d
    } else {
        d
    }
}

/// `m / 10^k` written with exactly `k` decimal places.
pub open spec fn fixed_text(m: int, k: nat) -> Seq<char> {
    let sign = if m < 0 {
        seq!['-']
    } else {
        Seq::<char>::empty()
    };
    let a = abs(m);
    if k == 0 {
        sign + nat_digits(a)
    } else {
        sign + nat_digits(a / pow10(k)) + seq!['.'] + zero_padded(a % pow10(k), k)
    }
}

/// Drops trailing zero decimal places.
pub open spec fn normalize(m: int, k: nat) -> (int, nat)
    decreases k,
{
    if k > 0 && m % 10 == 0 {
        normalize(m / 10, (k - 1) as nat)
    } else {
        (m, k)
    }
}

/// The shortest text of `m / 10^k`: no trailing zero decimal places, and no
/// decimal point for a whole number (`1`, `0.5`, `0.001`).
pub open spec fn decimal_text(m: int, k: nat) -> Seq<char> {
    let (n, j) = normalize(m, k);
    fixed_text(n, j)
}

/// `m / d` rounded to the nearest integer, ties to the even neighbour.
pub open spec fn round_half_even(m: int, d: nat) -> int {
    let a = abs(m);
    let q = a / d;
    let r = a % d;
    let up = 2 * r > d || (2 * r == d && q % 2 == 1);
    let qa: int = if up {
        q + 1int
    } else {
        q as int
    };
    if m < 0 {
        -qa
    } else {
        qa
    }
}

/// `m / 10^k` rounded to `p` decimal places and written with exactly `p`.
pub open spec fn decimal_fixed(m: int, k: nat, p: nat) -> Seq<char> {
    if p >= k {
        fixed_text(m * pow10((p - k) as nat), p)
    } else {
        fixed_text(round_half_even(m, pow10((k - p) as nat)), p)
    }
}

/// A parsed `{name:format}` format.
pub struct FormatSpec {
    pub zero: bool,
    pub width: u32,
    pub precision: Option<u32>,
    pub kind: Option<char>,
}

pub struct FmtModel {
    pub zero: bool,
    pub width: nat,
    pub precision: Option<nat>,
    pub kind: Option<char>,
}

impl View for FormatSpec {
    type V = FmtModel;

    open spec fn view(&self) -> FmtModel {
        FmtModel {
            zero: self.zero,
            width: self.width as nat,
            precision: match self.precision {
                Some(p) => Some(p as nat),
                None => None,
            },
            kind: self.kind,
        }
    }
}

/// Length of the run of digits at the start of `s`.
pub open spec fn digit_run(s: Seq<char>) -> nat
    decreases s.len(),
{
    if s.len() > 0 && is_ascii_digit(s[0]) {
        1 + digit_run(s.drop_first())
    } else {
        0
    }
}

pub open spec fn is_format_kind(c: char) -> bool {
    c == 'd' || c == 'f' || c == 's'
}

/// What a format string means: `[0][width][.precision][d|f|s]`, with width at
/// most [`MAX_FORMAT_WIDTH`] and precision at most [`MAX_DECIMAL_PLACES`].
/// `None` for any other text, which is then ignored.
pub open spec fn parse_format(f: Seq<char>) -> Option<FmtModel> {
    let zero = f.len() > 0 && f[0] == '0';
    let a = if zero {
        f.drop_first()
    } else {
        f
    };
    let wn = digit_run(a);
    let width = digits_value(a.take(wn as int));
    let b = a.skip(wn as int);
    let has_prec = b.len() > 0 && b[0] == '.';
    let c = if has_prec {
        b.drop_first()
    } else {
        b
    };
    let pn = digit_run(c);
    let prec = digits_value(c.take(pn as int));
    let d = c.skip(pn as int);
    let kind_ok = d.len() == 0 || (d.len() == 1 && is_format_kind(d[0]));
    if !kind_ok || (has_prec && pn == 0) || width > MAX_FORMAT_WIDTH || (has_prec && prec
        > MAX_DECIMAL_PLACES) {
        None
    } else {
        Some(
            FmtModel {
                zero,
                width,
                precision: if has_prec {
                    Some(prec)
                } else {
                    None
                },
                kind: if d.len() == 1 {
                    Some(d[0])
                } else {
                    None
                },
            },
        )
    }
}

/// `t` widened to `w` characters: with zeros after any sign when `zero`,
/// else with spaces in front.
pub open spec fn pad_text(t: Seq<char>, w: nat, zero: bool) -> Seq<char> {
    if t.len() >= w {
        t
    } else if zero {
        if t.len() > 0 && t[0] == '-' {
            seq!['-'] + repeat('0', (w - t.len()) as nat) + t.drop_first()
        } else {
            repeat('0', (w - t.len()) as nat) + t
        }
    } else {
        repeat(' ', (w - t.len()) as nat) + t
    }
}

/// The text of a value without a format.
pub open spec fn display_value(v: ParamVal) -> Seq<char> {
    match v {
        ParamVal::Int(i) => int_text(i),
        ParamVal::Dec(m, k) => decimal_text(m, k),
        ParamVal::Str(s) => s,
    }
}

/// The text of a value under a format. Strings are never reformatted; a
/// number takes the precision (integers gain zero decimal places), then the
/// width.
pub open spec fn format_value(v: ParamVal, fmt: Option<Seq<char>>) -> Seq<char> {
    match fmt {
        None => display_value(v),
        Some(f) => match parse_format(f) {
            None => display_value(v),
            Some(spec) => match v {
                ParamVal::Str(s) => s,
                ParamVal::Int(i) => {
                    let base = match spec.precision {
                        Some(p) => fixed_text(i * pow10(p), p),
                        None => if spec.kind == Some('f') {
                            fixed_text(i * pow10(6), 6)
                        } else {
                            int_text(i)
                        },
                    };
                    pad_text(base, spec.width, spec.zero)
                },
                ParamVal::Dec(m, k) => {
                    let base = match spec.precision {
                        Some(p) => decimal_fixed(m, k, p),
                        None => if spec.kind == Some('f') {
                            decimal_fixed(m, k, 6)
                        } else {
                            decimal_text(m, k)
                        },
                    };
                    pad_text(base, spec.width, spec.zero)
                },
            },
        },
    }
}

/// `n` copies of `c`.
pub fn repeat_chars(c: char, n: usize) -> (v: Vec<char>)
    ensures
        v@ == repeat(c, n as nat),
{
    let mut v: Vec<char> = Vec::new();
    let mut i: usize = 0;
    while i < n
        invariant
            i <= n,
            v@ == repeat(c, i as nat),
        decreases n - i,
    {
        v.push(c);
        proof {
            assert(v@ =~= repeat(c, (i + 1) as nat));
        }
        i = i + 1;
    }
    v
}

pub fn zero_padded_chars(n: u128, k: u32) -> (v: Vec<char>)
    ensures
        v@ == zero_padded(n as nat, k as nat),
{
    let d = u128_digits(n);
    if d.len() < k as usize {
        let mut v = repeat_chars('0', k as usize - d.len());
        extend_chars(&mut v, &d);
        v
    } else {
        d
    }
}

/// `m / 10^k` with exactly `k` decimal places.
pub fn fixed_chars(m: i128, k: u32) -> (v: Vec<char>)
    requires
        m > i128::MIN,
        k <= 38,
    ensures
        v@ == fixed_text(m as int, k as nat),
{
    let mut v: Vec<char> = Vec::new();
    if m < 0 {
        v.push('-');
    }
    let a: u128 = if m < 0 {
        (-m) as u128
    } else {
        m as u128
    };
    proof {
        assert(a as nat == abs(m as int));
    }
    if k == 0 {
        let d = u128_digits(a);
        extend_chars(&mut v, &d);
        proof {
            if m < 0 {
                assert(v@ =~= seq!['-'] + nat_digits(abs(m as int)));
            } else {
                assert(v@ =~= Seq::<char>::empty() + nat_digits(abs(m as int)));
            }
        }
    } else {
        let p = pow10_u128(k);
        proof {
            lemma_pow10_bounds(k as nat);
        }
        let ip = u128_digits(a / p);
        extend_chars(&mut v, &ip);
        v.push('.');
        let fp = zero_padded_chars(a % p, k);
        extend_chars(&mut v, &fp);
        proof {
            let sign = if m < 0 {
                seq!['-']
            } else {
                Seq::<char>::empty()
            };
            assert(v@ =~= sign + nat_digits(abs(m as int) / pow10(k as nat)) + seq!['.']
                + zero_padded(abs(m as int) % pow10(k as nat), k as nat));
        }
    }
    v
}

/// Removes trailing zero decimal places.
pub fn normalize_exec(m: i64, k: u32) -> (r: (i64, u32))
    ensures
        (r.0 as int, r.1 as nat) == normalize(m as int, k as nat),
        r.1 <= k,
    decreases k,
{
    if k > 0 && m % 10 == 0 {
        normalize_exec(m / 10, k - 1)
    } else {
        (m, k)
    }
}

/// The shortest text of a decimal.
pub fn decimal_chars(d: Decimal) -> (v: Vec<char>)
    requires
        d.scale <= 38,
    ensures
        v@ == decimal_text(d.mantissa as int, d.scale as nat),
{
    let (n, j) = normalize_exec(d.mantissa, d.scale);
    fixed_chars(n as i128, j)
}

pub fn round_half_even_exec(m: i128, d: u128) -> (r: i128)
    requires
        d >= 1,
        -0x1_0000_0000_0000_0000 < m < 0x1_0000_0000_0000_0000,
    ensures
        r == round_half_even(m as int, d as nat),
{
    let a: u128 = if m < 0 {
        (-m) as u128
    } else {
        m as u128
    };
    let q = a / d;
    let r = a % d;
    assert(r < d);
    assert(q <= a) by (nonlinear_arith)
        requires
            d >= 1,
            q == a / d,
    ;
    let up = (r > d - r) || (r == d - r && q % 2 == 1);
    let qa: u128 = if up {
        q + 1
    } else {
        q
    };
    assert(qa as int <= i128::MAX);
    if m < 0 {
        -(qa as i128)
    } else {
        qa as i128
    }
}

/// A decimal rounded to `p` places.
pub fn decimal_fixed_chars(d: Decimal, p: u32) -> (v: Vec<char>)
    requires
        d.scale <= MAX_DECIMAL_PLACES,
        p <= MAX_DECIMAL_PLACES,
    ensures
        v@ == decimal_fixed(d.mantissa as int, d.scale as nat, p as nat),
{
    let m = d.mantissa as i128;
    let k = d.scale;
    if p >= k {
        let f = pow10_u128(p - k);
        proof {
            lemma_pow10_bounds((p - k) as nat);
            assert(-9_223_372_036_854_775_808 <= m <= 9_223_372_036_854_775_807);
            assert(-9_223_372_036_854_775_808 * 1_000_000_000_000_000_000 <= m * (f as int)
                <= 9_223_372_036_854_775_807 * 1_000_000_000_000_000_000) by (nonlinear_arith)
                requires
                    -9_223_372_036_854_775_808 <= m <= 9_223_372_036_854_775_807,
                    1 <= f <= 1_000_000_000_000_000_000,
            ;
        }
        fixed_chars(m * (f as i128), p)
    } else {
        let f = pow10_u128(k - p);
        proof {
            lemma_pow10_bounds((k - p) as nat);
        }
        let q = round_half_even_exec(m, f);
        proof {
            let a: int = abs(m as int) as int;
            assert(a <= 9_223_372_036_854_775_808);
            assert(a / (f as int) <= a) by (nonlinear_arith)
                requires
                    f >= 1,
                    a >= 0,
            ;
        }
        fixed_chars(q, p)
    }
}

/// Length of the digit run starting at `v[i]`.
fn digit_run_exec(v: &Vec<char>, i: usize) -> (n: usize)
    requires
        i <= v.len(),
    ensures
        n == digit_run(v@.skip(i as int)),
        i + n <= v.len(),
        all_digits(v@.subrange(i as int, i + n)),
    decreases v.len() - i,
{
    if i < v.len() && ascii_digit(v[i]) {
        let r = digit_run_exec(v, i + 1);
        proof {
            assert(v@.skip(i as int).drop_first() =~= v@.skip(i + 1));
            let whole = v@.subrange(i as int, i + r + 1);
            let tail = v@.subrange(i + 1, i + 1 + r);
            assert forall|k: int| 0 <= k < whole.len() implies is_ascii_digit(
                #[trigger] whole[k],
            ) by {
                if k == 0 {
                    assert(whole[0] == v@[i as int]);
                } else {
                    assert(whole[k] == tail[k - 1]);
                }
            }
        }
        r + 1
    } else {
        proof {
            assert(v@.subrange(i as int, i as int).len() == 0);
        }
        0
    }
}

/// Parses a format string; `None` when it does not have the accepted shape.
#[verifier::rlimit(60)]
pub fn parse_format_exec(f: &Vec<char>) -> (r: Option<FormatSpec>)
    ensures
        match r {
            Some(s) => parse_format(f@) == Some(s@),
            None => parse_format(f@) is None,
        },
{
    let n = f.len();
    let zero = n > 0 && f[0] == '0';
    let a0: usize = if zero {
        1
    } else {
        0
    };
    let ghost a = if zero {
        f@.drop_first()
    } else {
        f@
    };
    proof {
        assert(a =~= f@.skip(a0 as int));
    }
    let wn = digit_run_exec(f, a0);
    proof {
        assert(f@.skip(a0 as int).take(wn as int) =~= f@.subrange(a0 as int, a0 + wn));
        assert(f@.skip(a0 as int).skip(wn as int) =~= f@.skip(a0 + wn));
    }
    let width_opt = digits_to_u128(f, a0, a0 + wn, MAX_FORMAT_WIDTH as u128);
    let b0 = a0 + wn;
    let has_prec = b0 < n && f[b0] == '.';
    let c0 = if has_prec {
        b0 + 1
    } else {
        b0
    };
    proof {
        if has_prec {
            assert(f@.skip(b0 as int).drop_first() =~= f@.skip(c0 as int));
        }
    }
    let pn = digit_run_exec(f, c0);
    proof {
        assert(f@.skip(c0 as int).take(pn as int) =~= f@.subrange(c0 as int, c0 + pn));
        assert(f@.skip(c0 as int).skip(pn as int) =~= f@.skip(c0 + pn));
    }
    let prec_opt = digits_to_u128(f, c0, c0 + pn, MAX_DECIMAL_PLACES as u128);
    let d0 = c0 + pn;
    let rest = n - d0;
    let kind_ok = rest == 0 || (rest == 1 && (f[d0] == 'd' || f[d0] == 'f' || f[d0] == 's'));
    if !kind_ok {
        return None;
    }
    if has_prec && pn == 0 {
        return None;
    }
    let width = match width_opt {
        Some(w) => w as u32,
        None => {
            return None;
        },
    };
    let precision = if has_prec {
        match prec_opt {
            Some(p) => Some(p as u32),
            None => {
                return None;
            },
        }
    } else {
        None
    };
    let kind = if rest == 1 {
        Some(f[d0])
    } else {
        None
    };
    let r = FormatSpec { zero, width, precision, kind };
    proof {
        assert(f@.skip(d0 as int).len() == rest);
        if rest == 1 {
            assert(f@.skip(d0 as int)[0] == f@[d0 as int]);
        }
    }
    Some(r)
}

/// Widens text to `w` characters.
pub fn pad_chars(t: Vec<char>, w: u32, zero: bool) -> (v: Vec<char>)
    ensures
        v@ == pad_text(t@, w as nat, zero),
{
    if t.len() >= w as usize {
        t
    } else if zero {
        let fill = w as usize - t.len();
        if t.len() > 0 && t[0] == '-' {
            let mut v: Vec<char> = Vec::new();
            v.push('-');
            let z = repeat_chars('0', fill);
            extend_chars(&mut v, &z);
            let tail = slice_chars(&t, 1, t.len());
            extend_chars(&mut v, &tail);
            proof {
                assert(tail@ =~= t@.drop_first());
                assert(v@ =~= seq!['-'] + repeat('0', fill as nat) + t@.drop_first());
            }
            v
        } else {
            let mut v = repeat_chars('0', fill);
            extend_chars(&mut v, &t);
            v
        }
    } else {
        let mut v = repeat_chars(' ', w as usize - t.len());
        extend_chars(&mut v, &t);
        v
    }
}

impl ParameterValue {
    /// Whether the value is held within the bounds this library formats.
    pub open spec fn well_formed(&self) -> bool {
        match self {
            ParameterValue::Float(d) => d.scale <= MAX_DECIMAL_PLACES,
            _ => true,
        }
    }

    /// A copy of the value.
    pub fn copy(&self) -> (r: ParameterValue)
        ensures
            r@ == self@,
            r.well_formed() == self.well_formed(),
    {
        match self {
            ParameterValue::Integer(i) => ParameterValue::Integer(*i),
            ParameterValue::Float(d) => ParameterValue::Float(*d),
            ParameterValue::String(s) => ParameterValue::String(s.clone()),
        }
    }

    fn display_chars(&self) -> (v: Vec<char>)
        requires
            self.well_formed(),
        ensures
            v@ == display_value(self@),
    {
        match self {
            ParameterValue::Integer(i) => i128_text(*i as i128),
            ParameterValue::Float(d) => decimal_chars(*d),
            ParameterValue::String(s) => chars_of(s.as_str()),
        }
    }

    /// The text of the value under an optional format.
    pub fn format_chars(&self, fmt: Option<&Vec<char>>) -> (v: Vec<char>)
        requires
            self.well_formed(),
        ensures
            v@ == format_value(
                self@,
                match fmt {
                    Some(f) => Some(f@),
                    None => None,
                },
            ),
    {
        let f = match fmt {
            None => {
                return self.display_chars();
            },
            Some(f) => f,
        };
        let spec = match parse_format_exec(f) {
            None => {
                return self.display_chars();
            },
            Some(s) => s,
        };
        match self {
            ParameterValue::String(s) => chars_of(s.as_str()),
            ParameterValue::Integer(i) => {
                let base = match spec.precision {
                    Some(p) => {
                        let d = Decimal { mantissa: *i, scale: 0 };
                        proof {
                            assert(pow10(0) == 1);
                        }
                        decimal_fixed_chars(d, p)
                    },
                    None => if spec.kind == Some('f') {
                        let d = Decimal { mantissa: *i, scale: 0 };
                        decimal_fixed_chars(d, 6)
                    } else {
                        i128_text(*i as i128)
                    },
                };
                pad_chars(base, spec.width, spec.zero)
            },
            ParameterValue::Float(d) => {
                let base = match spec.precision {
                    Some(p) => decimal_fixed_chars(*d, p),
                    None => if spec.kind == Some('f') {
                        decimal_fixed_chars(*d, 6)
                    } else {
                        decimal_chars(*d)
                    },
                };
                pad_chars(base, spec.width, spec.zero)
            },
        }
    }

    /// The text of the value under an optional format (`None` for the plain text).
    pub fn format(&self, fmt: Option<&str>) -> (s: String)
        requires
            self.well_formed(),
        ensures
            s@ == format_value(
                self@,
                match fmt {
                    Some(f) => Some(f@),
                    None => None,
                },
            ),
    {
        match fmt {
            None => {
                let v = self.format_chars(None);
                string_of(&v)
            },
            Some(f) => {
                let fv = chars_of(f);
                let v = self.format_chars(Some(&fv));
                string_of(&v)
            },
        }
    }
}


// ---------------------------------------------------------------------------
// Reading parameter values
// ---------------------------------------------------------------------------

/// Splits `s` at every `sep` (`"a,b,"` gives `["a", "b", ""]`).
pub open spec fn split_on(s: Seq<char>, sep: char) -> Seq<Seq<char>>
    decreases s.len(),
{
    if s.len() == 0 {
        seq![Seq::<char>::empty()]
    } else {
        let r = split_on(s.drop_last(), sep);
        if s.last() == sep {
            r.push(Seq::<char>::empty())
        } else {
            r.update(r.len() - 1, r.last().push(s.last()))
        }
    }
}

pub proof fn lemma_split_on_nonempty(s: Seq<char>, sep: char)
    ensures
        split_on(s, sep).len() >= 1,
    decreases s.len(),
{
    if s.len() > 0 {
        lemma_split_on_nonempty(s.drop_last(), sep);
    }
}

pub open spec fn chars_view(v: Seq<Vec<char>>) -> Seq<Seq<char>> {
    v.map_values(|p: Vec<char>| p@)
}

pub fn split_chars(s: &Vec<char>, sep: char) -> (r: Vec<Vec<char>>)
    ensures
        chars_view(r@) == split_on(s@, sep),
{
    let mut pieces: Vec<Vec<char>> = Vec::new();
    let mut cur: Vec<char> = Vec::new();
    let mut i: usize = 0;
    proof {
        assert(s@.take(0) =~= Seq::<char>::empty());
        assert(chars_view(pieces@).push(cur@) =~= split_on(s@.take(0), sep));
    }
    while i < s.len()
        invariant
            i <= s.len(),
            chars_view(pieces@).push(cur@) == split_on(s@.take(i as int), sep),
        decreases s.len() - i,
    {
        let c = s[i];
        proof {
            assert(s@.take(i + 1).drop_last() =~= s@.take(i as int));
            assert(s@.take(i + 1).last() == c);
            lemma_split_on_nonempty(s@.take(i as int), sep);
        }
        if c == sep {
            let done = cur;
            pieces.push(done);
            cur = Vec::new();
            proof {
                assert(chars_view(pieces@).push(cur@) =~= split_on(s@.take(i as int), sep).push(
                    Seq::<char>::empty(),
                ));
            }
        } else {
            cur.push(c);
            proof {
                let r = split_on(s@.take(i as int), sep);
                assert(chars_view(pieces@).push(cur@) =~= r.update(
                    r.len() - 1,
                    r.last().push(c),
                ));
            }
        }
        i = i + 1;
    }
    proof {
        assert(s@.take(s.len() as int) =~= s@);
    }
    pieces.push(cur);
    proof {
        assert(chars_view(pieces@) =~= split_on(s@, sep));
    }
    pieces
}

pub fn contains_char(s: &Vec<char>, c: char) -> (b: bool)
    ensures
        b == s@.contains(c),
{
    let mut i: usize = 0;
    while i < s.len()
        invariant
            i <= s.len(),
            forall|k: int| 0 <= k < i ==> s@[k] != c,
        decreases s.len() - i,
    {
        if s[i] == c {
            proof {
                assert(s@[i as int] == c);
            }
            return true;
        }
        i = i + 1;
    }
    false
}

/// Index of the first `c` in `s`, or `s.len()` when there is none.
pub open spec fn first_index(s: Seq<char>, c: char) -> nat
    decreases s.len(),
{
    if s.len() == 0 {
        0
    } else if s[0] == c {
        0
    } else {
        1 + first_index(s.drop_first(), c)
    }
}

pub proof fn lemma_first_index(s: Seq<char>, c: char)
    ensures
        first_index(s, c) <= s.len(),
        forall|k: int| 0 <= k < first_index(s, c) ==> s[k] != c,
        first_index(s, c) < s.len() ==> s[first_index(s, c) as int] == c,
    decreases s.len(),
{
    if s.len() > 0 && s[0] != c {
        lemma_first_index(s.drop_first(), c);
        assert forall|k: int| 0 <= k < first_index(s, c) implies s[k] != c by {
            if k > 0 {
                assert(s[k] == s.drop_first()[k - 1]);
            }
        }
    }
}

pub fn first_index_exec(s: &Vec<char>, c: char) -> (r: usize)
    ensures
        r == first_index(s@, c),
{
    let mut i: usize = 0;
    proof {
        assert(s@.skip(0) =~= s@);
    }
    while i < s.len() && s[i] != c
        invariant
            i <= s.len(),
            first_index(s@, c) == i + first_index(s@.skip(i as int), c),
        decreases s.len() - i,
    {
        proof {
            assert(s@.skip(i as int).drop_first() =~= s@.skip(i + 1));
        }
        i = i + 1;
    }
    i
}

/// `s` split into an optional sign and the rest.
pub open spec fn sign_and_body(s: Seq<char>) -> (bool, Seq<char>) {
    if s.len() > 0 && s[0] == '-' {
        (true, s.drop_first())
    } else if s.len() > 0 && s[0] == '+' {
        (false, s.drop_first())
    } else {
        (false, s)
    }
}

pub open spec fn fits_i64(x: int) -> bool {
    -9_223_372_036_854_775_808 <= x <= 9_223_372_036_854_775_807
}

/// An integer literal: an optional sign and at least one digit, within `i64`.
pub open spec fn int_literal(s: Seq<char>) -> Option<int> {
    let (neg, b) = sign_and_body(s);
    if b.len() > 0 && all_digits(b) {
        let x = if neg {
            -digits_value(b)
        } else {
            digits_value(b) as int
        };
        if fits_i64(x) {
            Some(x)
        } else {
            None
        }
    } else {
        None
    }
}

/// A decimal literal: an optional sign, digits, one `.`, digits (at least one
/// digit in all), at most [`MAX_DECIMAL_PLACES`] places, and a mantissa within
/// `i64`. Gives the mantissa and the number of places.
pub open spec fn dec_literal(s: Seq<char>) -> Option<(int, nat)> {
    let (neg, b) = sign_and_body(s);
    let i = first_index(b, '.');
    let ip = b.take(i as int);
    let fp = b.skip(i as int + 1);
    if i < b.len() && all_digits(ip) && all_digits(fp) && ip.len() + fp.len() > 0 && fp.len()
        <= MAX_DECIMAL_PLACES {
        let m = if neg {
            -digits_value(ip + fp)
        } else {
            digits_value(ip + fp) as int
        };
        if fits_i64(m) {
            Some((m, fp.len()))
        } else {
            None
        }
    } else {
        None
    }
}

/// A number as mantissa and places: an integer has no places.
pub open spec fn numeric_literal(s: Seq<char>) -> Option<(int, nat)> {
    match int_literal(s) {
        Some(x) => Some((x, 0)),
        None => dec_literal(s),
    }
}

/// What a single value stands for: an integer, else a decimal, else the text.
pub open spec fn scalar_value(s: Seq<char>) -> ParamVal {
    match int_literal(s) {
        Some(x) => ParamVal::Int(x),
        None => match dec_literal(s) {
            Some((m, k)) => ParamVal::Dec(m, k),
            None => ParamVal::Str(s),
        },
    }
}

pub open spec fn is_quoted(t: Seq<char>) -> bool {
    t.len() >= 2 && ((t[0] == '\'' && t.last() == '\'') || (t[0] == '"' && t.last() == '"'))
}

/// One element of a `[...]` list: quoted text is taken as it stands, other
/// elements as single values.
pub open spec fn list_item(item: Seq<char>) -> ParamVal {
    let t = trim(item);
    if is_quoted(t) {
        ParamVal::Str(t.subrange(1, t.len() - 1))
    } else {
        scalar_value(t)
    }
}

/// Number of values in the range from `a` to `b` (inclusive) by `s`.
pub open spec fn range_count(a: int, b: int, s: int) -> nat {
    if s > 0 {
        if a <= b {
            ((b - a) / s + 1) as nat
        } else {
            0
        }
    } else if s < 0 {
        if a >= b {
            ((a - b) / (-s) + 1) as nat
        } else {
            0
        }
    } else {
        0
    }
}

/// `a, a + s, a + 2s, ...` up to and including `b`.
pub open spec fn range_seq(a: int, b: int, s: int) -> Seq<int> {
    Seq::new(range_count(a, b, s), |k: int| a + k * s)
}

pub open spec fn invalid_range_message(value: Seq<char>) -> Seq<char> {
    "Invalid range format: '"@ + value + "'. Expected 'start:end' or 'start:end:step'"@
}

pub open spec fn zero_step_message(value: Seq<char>) -> Seq<char> {
    "Step cannot be zero in range '"@ + value + "'"@
}

pub open spec fn range_bounds_message(value: Seq<char>) -> Seq<char> {
    "Range bounds out of the supported numeric range: '"@ + value + "'"@
}

/// The values of a range whose parts are `ts`.
pub open spec fn range_values(value: Seq<char>, ts: Seq<Seq<char>>) -> Result<
    Seq<ParamVal>,
    Seq<char>,
> {
    let all_int = int_literal(ts[0]) is Some && int_literal(ts[1]) is Some && (ts.len() == 2
        || int_literal(ts[2]) is Some);
    let all_num = numeric_literal(ts[0]) is Some && numeric_literal(ts[1]) is Some && (ts.len()
        == 2 || numeric_literal(ts[2]) is Some);
    if all_int {
        let a = int_literal(ts[0]).unwrap();
        let b = int_literal(ts[1]).unwrap();
        let s = if ts.len() == 3 {
            int_literal(ts[2]).unwrap()
        } else {
            1
        };
        if s == 0 {
            Err(zero_step_message(value))
        } else {
            Ok(range_seq(a, b, s).map_values(|x: int| ParamVal::Int(x)))
        }
    } else if all_num {
        let (ma, ka) = numeric_literal(ts[0]).unwrap();
        let (mb, kb) = numeric_literal(ts[1]).unwrap();
        let (ms, ks) = if ts.len() == 3 {
            numeric_literal(ts[2]).unwrap()
        } else {
            (1int, 0nat)
        };
        let k = if ka >= kb && ka >= ks {
            ka
        } else if kb >= ks {
            kb
        } else {
            ks
        };
        let a = ma * pow10((k - ka) as nat);
        let b = mb * pow10((k - kb) as nat);
        let s = ms * pow10((k - ks) as nat);
        if s == 0 {
            Err(zero_step_message(value))
        } else if !fits_i64(a) || !fits_i64(b) {
            Err(range_bounds_message(value))
        } else {
            Ok(range_seq(a, b, s).map_values(|x: int| ParamVal::Dec(x, k)))
        }
    } else {
        Err(invalid_range_message(value))
    }
}

/// The values a parameter's text stands for: a `[...]` list, a
/// `start:end[:step]` range, or a single value.
pub open spec fn parse_parameter(value: Seq<char>) -> Result<Seq<ParamVal>, Seq<char>> {
    let v = trim(value);
    if v.len() >= 2 && v[0] == '[' && v.last() == ']' {
        let inner = v.subrange(1, v.len() - 1);
        if trim(inner).len() == 0 {
            Ok(Seq::empty())
        } else {
            Ok(split_on(inner, ',').map_values(|item: Seq<char>| list_item(item)))
        }
    } else if v.contains(':') {
        let parts = split_on(v, ':');
        if parts.len() != 2 && parts.len() != 3 {
            Err(invalid_range_message(value))
        } else {
            range_values(value, parts.map_values(|p: Seq<char>| trim(p)))
        }
    } else {
        Ok(seq![scalar_value(v)])
    }
}

pub open spec fn values_view(v: Seq<ParameterValue>) -> Seq<ParamVal> {
    v.map_values(|x: ParameterValue| x@)
}

pub open spec fn all_well_formed(v: Seq<ParameterValue>) -> bool {
    forall|i: int| 0 <= i < v.len() ==> (#[trigger] v[i]).well_formed()
}


pub fn all_digits_exec(v: &Vec<char>) -> (b: bool)
    ensures
        b == all_digits(v@),
{
    let mut i: usize = 0;
    while i < v.len()
        invariant
            i <= v.len(),
            forall|k: int| 0 <= k < i ==> is_ascii_digit(#[trigger] v@[k]),
        decreases v.len() - i,
    {
        if !ascii_digit(v[i]) {
            return false;
        }
        i = i + 1;
    }
    true
}

/// Splits off an optional sign: whether it is `-`, and where the rest starts.
fn sign_exec(t: &Vec<char>) -> (r: (bool, usize))
    ensures
        r.1 <= t.len(),
        sign_and_body(t@) == (r.0, t@.skip(r.1 as int)),
{
    if t.len() > 0 && t[0] == '-' {
        proof {
            assert(t@.drop_first() =~= t@.skip(1));
        }
        (true, 1)
    } else if t.len() > 0 && t[0] == '+' {
        proof {
            assert(t@.drop_first() =~= t@.skip(1));
        }
        (false, 1)
    } else {
        proof {
            assert(t@ =~= t@.skip(0));
        }
        (false, 0)
    }
}

/// Reads an integer literal.
pub fn parse_int_literal(t: &Vec<char>) -> (r: Option<i64>)
    ensures
        match r {
            Some(x) => int_literal(t@) == Some(x as int),
            None => int_literal(t@) is None,
        },
{
    let (neg, lo) = sign_exec(t);
    let body = slice_chars(t, lo, t.len());
    proof {
        assert(body@ =~= t@.skip(lo as int));
    }
    if body.len() == 0 || !all_digits_exec(&body) {
        return None;
    }
    let limit: u128 = if neg {
        9_223_372_036_854_775_808
    } else {
        9_223_372_036_854_775_807
    };
    proof {
        assert(body@.subrange(0, body.len() as int) =~= body@);
    }
    match digits_to_u128(&body, 0, body.len(), limit) {
        None => None,
        Some(v) => {
            if neg {
                if v == 9_223_372_036_854_775_808 {
                    Some(i64::MIN)
                } else {
                    Some(-(v as i64))
                }
            } else {
                Some(v as i64)
            }
        },
    }
}

pub proof fn lemma_all_digits_add(a: Seq<char>, b: Seq<char>)
    requires
        all_digits(a),
        all_digits(b),
    ensures
        all_digits(a + b),
{
    assert forall|i: int| 0 <= i < (a + b).len() implies is_ascii_digit(#[trigger] (a + b)[i]) by {
        if i < a.len() {
            assert((a + b)[i] == a[i]);
        } else {
            assert((a + b)[i] == b[i - a.len()]);
        }
    }
}

/// Reads a decimal literal.
pub fn parse_dec_literal(t: &Vec<char>) -> (r: Option<Decimal>)
    ensures
        match r {
            Some(d) => dec_literal(t@) == Some((d.mantissa as int, d.scale as nat)) && d.scale
                <= MAX_DECIMAL_PLACES,
            None => dec_literal(t@) is None,
        },
{
    let (neg, lo) = sign_exec(t);
    let body = slice_chars(t, lo, t.len());
    proof {
        assert(body@ =~= t@.skip(lo as int));
    }
    let i = first_index_exec(&body, '.');
    proof {
        lemma_first_index(body@, '.');
    }
    if i >= body.len() {
        return None;
    }
    let ip = slice_chars(&body, 0, i);
    let fp = slice_chars(&body, i + 1, body.len());
    proof {
        assert(ip@ =~= body@.take(i as int));
        assert(fp@ =~= body@.skip(i + 1));
    }
    if !all_digits_exec(&ip) || !all_digits_exec(&fp) {
        return None;
    }
    if ip.len() + fp.len() == 0 || fp.len() > MAX_DECIMAL_PLACES as usize {
        return None;
    }
    let mut joined = ip;
    extend_chars(&mut joined, &fp);
    proof {
        lemma_all_digits_add(body@.take(i as int), body@.skip(i + 1));
        assert(joined@.subrange(0, joined.len() as int) =~= joined@);
    }
    let limit: u128 = if neg {
        9_223_372_036_854_775_808
    } else {
        9_223_372_036_854_775_807
    };
    let scale = fp.len() as u32;
    match digits_to_u128(&joined, 0, joined.len(), limit) {
        None => None,
        Some(v) => {
            let m: i64 = if neg {
                if v == 9_223_372_036_854_775_808 {
                    i64::MIN
                } else {
                    -(v as i64)
                }
            } else {
                v as i64
            };
            Some(Decimal { mantissa: m, scale })
        },
    }
}

/// Reads a number as mantissa and places.
pub fn parse_numeric_literal(t: &Vec<char>) -> (r: Option<Decimal>)
    ensures
        match r {
            Some(d) => numeric_literal(t@) == Some((d.mantissa as int, d.scale as nat)) && d.scale
                <= MAX_DECIMAL_PLACES,
            None => numeric_literal(t@) is None,
        },
{
    match parse_int_literal(t) {
        Some(x) => Some(Decimal { mantissa: x, scale: 0 }),
        None => parse_dec_literal(t),
    }
}

/// Reads a single value.
pub fn parse_scalar(t: &Vec<char>) -> (r: ParameterValue)
    ensures
        r@ == scalar_value(t@),
        r.well_formed(),
{
    match parse_int_literal(t) {
        Some(x) => ParameterValue::Integer(x),
        None => match parse_dec_literal(t) {
            Some(d) => ParameterValue::Float(d),
            None => ParameterValue::String(string_of(t)),
        },
    }
}

/// Reads one element of a list.
pub fn parse_list_item(item: &Vec<char>) -> (r: ParameterValue)
    ensures
        r@ == list_item(item@),
        r.well_formed(),
{
    let t = trim_chars(item);
    let n = t.len();
    if n >= 2 && ((t[0] == '\'' && t[n - 1] == '\'') || (t[0] == '"' && t[n - 1] == '"')) {
        let inner = slice_chars(&t, 1, n - 1);
        ParameterValue::String(string_of(&inner))
    } else {
        parse_scalar(&t)
    }
}

pub proof fn lemma_range_element(a: int, b: int, s: int, k: int)
    requires
        0 <= k < range_count(a, b, s),
    ensures
        s > 0 ==> a <= a + k * s <= b,
        s < 0 ==> b <= a + k * s <= a,
{
    if s > 0 {
        let q = (b - a) / s;
        assert(k <= q);
        assert(q * s <= b - a) by (nonlinear_arith)
            requires
                s > 0,
                b - a >= 0,
                q == (b - a) / s,
        ;
        assert(0 <= k * s <= q * s) by (nonlinear_arith)
            requires
                s > 0,
                0 <= k <= q,
        ;
    } else if s < 0 {
        let t = -s;
        let q = (a - b) / t;
        assert(k <= q);
        assert(q * t <= a - b) by (nonlinear_arith)
            requires
                t > 0,
                a - b >= 0,
                q == (a - b) / t,
        ;
        assert(0 <= k * t <= q * t) by (nonlinear_arith)
            requires
                t > 0,
                0 <= k <= q,
        ;
        assert(k * s == -(k * t)) by (nonlinear_arith)
            requires
                t == -s,
        ;
    }
}

pub open spec fn places_model(places: Option<u32>) -> Option<nat> {
    match places {
        Some(k) => Some(k as nat),
        None => None,
    }
}

pub open spec fn range_value(x: int, places: Option<nat>) -> ParamVal {
    match places {
        None => ParamVal::Int(x),
        Some(k) => ParamVal::Dec(x, k),
    }
}

/// The values from `a` to `b` by `s`: integers, or decimals with `places`.
pub fn numeric_range(a: i64, b: i64, s: i128, places: Option<u32>) -> (r: Vec<ParameterValue>)
    requires
        s != 0,
        s > i128::MIN,
        match places {
            Some(k) => k <= MAX_DECIMAL_PLACES,
            None => true,
        },
    ensures
        values_view(r@) == range_seq(a as int, b as int, s as int).map_values(
            |x: int| range_value(x, places_model(places)),
        ),
        all_well_formed(r@),
{
    let ghost pl = match places {
        Some(k) => Some(k as nat),
        None => None,
    };
    let count: i128 = if s > 0 {
        if a <= b {
            ((b as i128) - (a as i128)) / s + 1
        } else {
            0
        }
    } else {
        if a >= b {
            ((a as i128) - (b as i128)) / (-s) + 1
        } else {
            0
        }
    };
    proof {
        assert(count == range_count(a as int, b as int, s as int));
    }
    let mut out: Vec<ParameterValue> = Vec::new();
    let mut k: i128 = 0;
    while k < count
        invariant
            0 <= k <= count,
            count == range_count(a as int, b as int, s as int),
            s != 0,
            out@.len() == k,
            forall|j: int|
                0 <= j < k ==> (#[trigger] out@[j])@ == range_value(a + j * s, pl),
            all_well_formed(out@),
            pl == match places {
                Some(k) => Some(k as nat),
                None => None,
            },
            match places {
                Some(k) => k <= MAX_DECIMAL_PLACES,
                None => true,
            },
        decreases count - k,
    {
        proof {
            lemma_range_element(a as int, b as int, s as int, k as int);
        }
        let x: i128 = (a as i128) + k * s;
        let v = x as i64;
        let pv = match places {
            None => ParameterValue::Integer(v),
            Some(p) => ParameterValue::Float(Decimal { mantissa: v, scale: p }),
        };
        out.push(pv);
        k = k + 1;
    }
    proof {
        assert(values_view(out@) =~= range_seq(a as int, b as int, s as int).map_values(
            |x: int| range_value(x, pl),
        ));
    }
    out
}


fn message_with_value(prefix: &str, value: &Vec<char>, suffix: &str) -> (r: String)
    ensures
        r@ == prefix@ + value@ + suffix@,
{
    let mut v = chars_of(prefix);
    extend_chars(&mut v, value);
    extend_str(&mut v, suffix);
    string_of(&v)
}

/// The values of a range, given the trimmed text of its parts.
#[verifier::rlimit(40)]
pub fn range_values_exec(value: &Vec<char>, ts: &Vec<Vec<char>>) -> (r: Result<
    Vec<ParameterValue>,
    String,
>)
    requires
        ts.len() == 2 || ts.len() == 3,
    ensures
        match r {
            Ok(vals) => range_values(value@, chars_view(ts@)) == Ok::<Seq<ParamVal>, Seq<char>>(
                values_view(vals@),
            ) && all_well_formed(vals@),
            Err(e) => range_values(value@, chars_view(ts@)) == Err::<Seq<ParamVal>, Seq<char>>(
                e@,
            ),
        },
{
    let ghost tv = chars_view(ts@);
    proof {
        assert(tv[0] == ts@[0]@);
        assert(tv[1] == ts@[1]@);
        if ts.len() == 3 {
            assert(tv[2] == ts@[2]@);
        }
    }
    let three = ts.len() == 3;
    let ai = parse_int_literal(&ts[0]);
    let bi = parse_int_literal(&ts[1]);
    let si = if three {
        parse_int_literal(&ts[2])
    } else {
        Some(1i64)
    };
    if ai.is_some() && bi.is_some() && si.is_some() {
        let a = ai.unwrap();
        let b = bi.unwrap();
        let st = si.unwrap();
        if st == 0 {
            return Err(
                message_with_value("Step cannot be zero in range '", value, "'"),
            );
        }
        let r = numeric_range(a, b, st as i128, None);
        proof {
            let rs = range_seq(a as int, b as int, st as int);
            assert(places_model(None) == None::<nat>);
            assert(rs.map_values(|x: int| range_value(x, places_model(None))) =~= rs.map_values(
                |x: int| ParamVal::Int(x),
            ));
            assert(int_literal(tv[0]) == Some(a as int));
            assert(int_literal(tv[1]) == Some(b as int));
            if three {
                assert(int_literal(tv[2]) == Some(st as int));
            }
            assert(range_values(value@, tv) == Ok::<Seq<ParamVal>, Seq<char>>(
                rs.map_values(|x: int| ParamVal::Int(x)),
            ));
        }
        return Ok(r);
    }
    let an = parse_numeric_literal(&ts[0]);
    let bn = parse_numeric_literal(&ts[1]);
    let sn = if three {
        parse_numeric_literal(&ts[2])
    } else {
        Some(Decimal { mantissa: 1, scale: 0 })
    };
    if !(an.is_some() && bn.is_some() && sn.is_some()) {
        return Err(
            message_with_value(
                "Invalid range format: '",
                value,
                "'. Expected 'start:end' or 'start:end:step'",
            ),
        );
    }
    let da = an.unwrap();
    let db = bn.unwrap();
    let ds = sn.unwrap();
    let k = if da.scale >= db.scale && da.scale >= ds.scale {
        da.scale
    } else if db.scale >= ds.scale {
        db.scale
    } else {
        ds.scale
    };
    let fa = pow10_u128(k - da.scale);
    let fb = pow10_u128(k - db.scale);
    let fs = pow10_u128(k - ds.scale);
    proof {
        lemma_pow10_bounds((k - da.scale) as nat);
        lemma_pow10_bounds((k - db.scale) as nat);
        lemma_pow10_bounds((k - ds.scale) as nat);
        assert forall|m: int, f: int|
            -9_223_372_036_854_775_808 <= m <= 9_223_372_036_854_775_807 && 1 <= f
                <= 1_000_000_000_000_000_000 implies -9_223_372_036_854_775_808
            * 1_000_000_000_000_000_000 <= #[trigger] (m * f) <= 9_223_372_036_854_775_807
            * 1_000_000_000_000_000_000 by {
            assert(-9_223_372_036_854_775_808 * 1_000_000_000_000_000_000 <= m * f
                <= 9_223_372_036_854_775_807 * 1_000_000_000_000_000_000) by (nonlinear_arith)
                requires
                    -9_223_372_036_854_775_808 <= m <= 9_223_372_036_854_775_807,
                    1 <= f <= 1_000_000_000_000_000_000,
            ;
        }
    }
    let big_a = (da.mantissa as i128) * (fa as i128);
    let big_b = (db.mantissa as i128) * (fb as i128);
    let big_s = (ds.mantissa as i128) * (fs as i128);
    if big_s == 0 {
        return Err(message_with_value("Step cannot be zero in range '", value, "'"));
    }
    let lo: i128 = -9_223_372_036_854_775_808;
    let hi: i128 = 9_223_372_036_854_775_807;
    if big_a < lo || big_a > hi || big_b < lo || big_b > hi {
        return Err(
            message_with_value(
                "Range bounds out of the supported numeric range: '",
                value,
                "'",
            ),
        );
    }
    let r = numeric_range(big_a as i64, big_b as i64, big_s, Some(k));
    proof {
        let rs = range_seq(big_a as int, big_b as int, big_s as int);
        assert(places_model(Some(k)) == Some(k as nat));
        assert(rs.map_values(|x: int| range_value(x, places_model(Some(k)))) =~= rs.map_values(
            |x: int| ParamVal::Dec(x, k as nat),
        ));
    }
    Ok(r)
}

/// Reads the values that a parameter's text stands for.
pub fn parse_parameter_value(value: &str) -> (r: Result<Vec<ParameterValue>, String>)
    ensures
        match r {
            Ok(vals) => parse_parameter(value@) == Ok::<Seq<ParamVal>, Seq<char>>(
                values_view(vals@),
            ) && all_well_formed(vals@),
            Err(e) => parse_parameter(value@) == Err::<Seq<ParamVal>, Seq<char>>(e@),
        },
{
    let raw = chars_of(value);
    let v = trim_chars(&raw);
    let n = v.len();
    if n >= 2 && v[0] == '[' && v[n - 1] == ']' {
        let inner = slice_chars(&v, 1, n - 1);
        let ti = trim_chars(&inner);
        if ti.len() == 0 {
            let out: Vec<ParameterValue> = Vec::new();
            proof {
                assert(values_view(out@) =~= Seq::<ParamVal>::empty());
            }
            return Ok(out);
        }
        let items = split_chars(&inner, ',');
        let mut out: Vec<ParameterValue> = Vec::new();
        let mut j: usize = 0;
        while j < items.len()
            invariant
                j <= items.len(),
                values_view(out@) == chars_view(items@).take(j as int).map_values(
                    |item: Seq<char>| list_item(item),
                ),
                all_well_formed(out@),
            decreases items.len() - j,
        {
            let pv = parse_list_item(&items[j]);
            let ghost prev = out@;
            out.push(pv);
            proof {
                assert(chars_view(items@)[j as int] == items@[j as int]@);
                assert(out@ =~= prev.push(pv));
                assert(values_view(out@) =~= values_view(prev).push(pv@));
                assert(chars_view(items@).take(j + 1) =~= chars_view(items@).take(j as int).push(
                    chars_view(items@)[j as int],
                ));
                assert(values_view(out@) =~= chars_view(items@).take(j + 1).map_values(
                    |item: Seq<char>| list_item(item),
                ));
            }
            j = j + 1;
        }
        proof {
            assert(chars_view(items@).take(items.len() as int) =~= chars_view(items@));
        }
        return Ok(out);
    }
    if contains_char(&v, ':') {
        let parts = split_chars(&v, ':');
        if parts.len() != 2 && parts.len() != 3 {
            return Err(
                message_with_value(
                    "Invalid range format: '",
                    &raw,
                    "'. Expected 'start:end' or 'start:end:step'",
                ),
            );
        }
        let mut ts: Vec<Vec<char>> = Vec::new();
        let mut j: usize = 0;
        while j < parts.len()
            invariant
                j <= parts.len(),
                chars_view(ts@) == chars_view(parts@).take(j as int).map_values(
                    |p: Seq<char>| trim(p),
                ),
            decreases parts.len() - j,
        {
            let t = trim_chars(&parts[j]);
            let ghost prev = ts@;
            let ghost tview = t@;
            ts.push(t);
            proof {
                assert(chars_view(parts@)[j as int] == parts@[j as int]@);
                assert(chars_view(ts@) =~= chars_view(prev).push(tview));
                assert(chars_view(parts@).take(j + 1) =~= chars_view(parts@).take(j as int).push(
                    chars_view(parts@)[j as int],
                ));
                assert(chars_view(ts@) =~= chars_view(parts@).take(j + 1).map_values(
                    |p: Seq<char>| trim(p),
                ));
            }
            j = j + 1;
        }
        proof {
            assert(chars_view(parts@).take(parts.len() as int) =~= chars_view(parts@));
        }
        return range_values_exec(&raw, &ts);
    }
    let single = parse_scalar(&v);
    let mut out: Vec<ParameterValue> = Vec::new();
    out.push(single);
    proof {
        assert(values_view(out@) =~= seq![scalar_value(v@)]);
    }
    Ok(out)
}

} // verus!
