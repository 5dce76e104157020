//! Decimal numerals: writing unsigned integers (plain and zero-padded to
//! two digits) and reading the decimal numbers that yt-dlp prints as
//! download percentages.
use vstd::prelude::*;
use crate::text::{
    eq_ignore_ascii_case, eq_ignore_case_range, find, find_in, lemma_find_from, push_char, span,
    span_from, to_chars, CharClass,
};

verus! {

pub open spec fn digit_char(d: nat) -> char {
    ('0' as nat + d) as char
}

/// The decimal numeral of `n`, as `{}` formats it.
pub open spec fn decimal(n: nat) -> Seq<char>
    decreases n,
{
    if n < 10 {
        seq![digit_char(n)]
    } else {
        decimal(n / 10).push(digit_char(n % 10))
    }
}

/// The decimal numeral of `n` padded with zeros to two digits, as `{:02}` formats it.
pub open spec fn pad2(n: nat) -> Seq<char> {
    if n < 10 {
        seq!['0', digit_char(n)]
    } else {
        decimal(n)
    }
}

/// Appends the decimal numeral of `n`.
pub fn push_decimal(s: &mut String, n: u64)
    ensures
        final(s)@ == old(s)@ + decimal(n as nat),
    decreases n,
{
    if n >= 10 {
        push_decimal(s, n / 10);
    }
    let d = (n % 10) as u32;
    let c = char_of_digit(d);
    push_char(s, c);
    proof {
        if n >= 10 {
            assert(decimal(n as nat) == decimal((n / 10) as nat).push(digit_char((n % 10) as nat)));
        }
    }
}

fn char_of_digit(d: u32) -> (c: char)
    requires
        d < 10,
    ensures
        c == digit_char(d as nat),
{
    match d {
        0 => '0',
        1 => '1',
        2 => '2',
        3 => '3',
        4 => '4',
        5 => '5',
        6 => '6',
        7 => '7',
        8 => '8',
        _ => '9',
    }
}

/// Appends the decimal numeral of `n`, zero-padded to two digits.
pub fn push_pad2(s: &mut String, n: u64)
    ensures
        final(s)@ == old(s)@ + pad2(n as nat),
{
    if n < 10 {
        push_char(s, '0');
    }
    push_decimal(s, n);
    proof {
        if n < 10 {
            assert(decimal(n as nat) == seq![digit_char(n as nat)]);
            assert(pad2(n as nat) =~= seq!['0'] + decimal(n as nat));
        }
    }
}

/// A new string holding the decimal numeral of `n`.
pub fn decimal_string(n: u64) -> (r: String)
    ensures
        r@ == decimal(n as nat),
{
    let mut r = String::new();
    push_decimal(&mut r, n);
    assert(r@ =~= decimal(n as nat));
    r
}

pub open spec fn is_digit(c: char) -> bool {
    '0' <= c && c <= '9'
}

pub open spec fn digit_value(c: char) -> nat {
    (c as nat - '0' as nat) as nat
}

pub open spec fn all_digits(s: Seq<char>) -> bool {
    forall|i: int| 0 <= i < s.len() ==> is_digit(#[trigger] s[i])
}

/// The number that a string of decimal digits denotes.
pub open spec fn digits_value(s: Seq<char>) -> nat
    decreases s.len(),
{
    if s.len() == 0 {
        0
    } else {
        digits_value(s.drop_last()) * 10 + digit_value(s.last())
    }
}

pub open spec fn pow10(n: nat) -> nat
    decreases n,
{
    if n == 0 {
        1
    } else {
        10 * pow10((n - 1) as nat)
    }
}

/// A mantissa `digits[.digits]` with at least one digit: its digits with
/// the point left out, and how many of them follow the point.
pub open spec fn mantissa(m: Seq<char>) -> Option<(Seq<char>, nat)> {
    match find(m, seq!['.']) {
        Some(k) => {
            let ip = m.take(k);
            let fp = m.skip(k + 1);
            if all_digits(ip) && all_digits(fp) && ip.len() + fp.len() >= 1 {
                Some((ip + fp, fp.len()))
            } else {
                None
            }
        },
        None => if all_digits(m) && m.len() >= 1 {
            Some((m, 0nat))
        } else {
            None
        },
    }
}

/// An exponent `[+|-]digits`.
pub open spec fn exponent_value(e: Seq<char>) -> Option<int> {
    let negative = e.len() > 0 && e[0] == '-';
    let d = if e.len() > 0 && (e[0] == '-' || e[0] == '+') {
        e.drop_first()
    } else {
        e
    };
    if all_digits(d) && d.len() >= 1 {
        Some(
            if negative {
                -(digits_value(d) as int)
            } else {
                digits_value(d) as int
            },
        )
    } else {
        None
    }
}

/// `n` times ten to the power `s`, rounded toward zero.
pub open spec fn scaled(n: nat, s: int) -> nat {
    if s >= 0 {
        n * pow10(s as nat)
    } else {
        n / pow10((-s) as nat)
    }
}

/// An unsigned finite number as `f32` parsing writes it,
/// `mantissa[(e|E)exponent]`, in hundredths, rounded toward zero.
pub open spec fn unsigned_hundredths(body: Seq<char>) -> Option<nat> {
    let k = span(body, CharClass::NotExponentMark);
    let x = if k < body.len() {
        exponent_value(body.skip(k + 1int))
    } else {
        Some(0int)
    };
    match (mantissa(body.take(k as int)), x) {
        (Some(md), Some(x)) => Some(scaled(digits_value(md.0), x + 2 - md.1)),
        _ => None,
    }
}

pub open spec fn is_infinity_word(s: Seq<char>) -> bool {
    eq_ignore_ascii_case(s, "inf"@) || eq_ignore_ascii_case(s, "infinity"@)
}

pub open spec fn clamp_whole(n: nat) -> nat {
    if n > 10000 {
        10000
    } else {
        n
    }
}

/// A percentage as `f32` parsing reads it (an optional sign, then a number
/// with an optional exponent, or `inf` / `infinity` in any ASCII case), as
/// a fraction of the whole in ten-thousandths, rounded toward zero and
/// clamped to `0..=10000`. `nan` is no fraction and gives none.
pub open spec fn percent_basis_points(num: Seq<char>) -> Option<nat> {
    let negative = num.len() > 0 && num[0] == '-';
    let body = if num.len() > 0 && (num[0] == '-' || num[0] == '+') {
        num.drop_first()
    } else {
        num
    };
    if is_infinity_word(body) {
        Some(
            if negative {
                0
            } else {
                10000
            },
        )
    } else {
        match unsigned_hundredths(body) {
            Some(v) => Some(
                if negative {
                    0
                } else {
                    clamp_whole(v)
                },
            ),
            None => None,
        }
    }
}

pub open spec fn capped(x: nat, c: nat) -> nat {
    if x > c {
        c
    } else {
        x
    }
}

proof fn lemma_cap_step(x: nat, d: nat, c: nat)
    requires
        d < 10,
    ensures
        capped(10 * capped(x, c) + d, c) == capped(10 * x + d, c),
{
}

/// Reads the digits in `[a, b)`, all digits, as a value capped at `cap`.
fn capped_digits(v: &Vec<char>, a: usize, b: usize, cap: u128) -> (r: u128)
    requires
        a <= b <= v@.len(),
        all_digits(v@.subrange(a as int, b as int)),
        cap <= 0x1_0000_0000_0000_0000_0000_0000u128,
    ensures
        r == capped(digits_value(v@.subrange(a as int, b as int)), cap as nat),
{
    let mut acc: u128 = 0;
    let mut i = a;
    while i < b
        invariant
            a <= i <= b <= v@.len(),
            all_digits(v@.subrange(a as int, b as int)),
            cap <= 0x1_0000_0000_0000_0000_0000_0000u128,
            acc == capped(digits_value(v@.subrange(a as int, i as int)), cap as nat),
        decreases b - i,
    {
        let c = v[i];
        proof {
            assert(is_digit(v@.subrange(a as int, b as int)[i - a]));
        }
        let d = (c as u32 - '0' as u32) as u128;
        proof {
            let s = v@.subrange(a as int, i + 1);
            assert(s.drop_last() =~= v@.subrange(a as int, i as int));
            assert(s.last() == c);
            lemma_cap_step(digits_value(v@.subrange(a as int, i as int)), d as nat, cap as nat);
        }
        let next = 10 * acc + d;
        acc = if next > cap {
            cap
        } else {
            next
        };
        i += 1;
    }
    acc
}

fn all_digits_in(v: &Vec<char>, a: usize, b: usize) -> (r: bool)
    requires
        a <= b <= v@.len(),
    ensures
        r == all_digits(v@.subrange(a as int, b as int)),
{
    let mut i = a;
    while i < b
        invariant
            a <= i <= b <= v@.len(),
            all_digits(v@.subrange(a as int, i as int)),
        decreases b - i,
    {
        if !('0' <= v[i] && v[i] <= '9') {
            proof {
                assert(!is_digit(v@.subrange(a as int, b as int)[i - a]));
            }
            return false;
        }
        proof {
            assert forall|j: int| 0 <= j < i + 1 - a implies is_digit(
                #[trigger] v@.subrange(a as int, i + 1)[j],
            ) by {
                if j < i - a {
                    assert(v@.subrange(a as int, i + 1)[j] == v@.subrange(a as int, i as int)[j]);
                }
            }
        }
        i += 1;
    }
    true
}

/// Reads the percentage written in `[a, b)` (see `percent_basis_points`).
pub fn parse_percent_basis_points(v: &Vec<char>, a: usize, b: usize) -> (r: Option<u32>)
    requires
        a <= b <= v@.len(),
    ensures
        match percent_basis_points(v@.subrange(a as int, b as int)) {
            Some(p) => r == Some(p as u32),
            None => r is None,
        },
{
    let ghost num = v@.subrange(a as int, b as int);
    let negative = a < b && v[a] == '-';
    let body_start = if a < b && (v[a] == '-' || v[a] == '+') {
        a + 1
    } else {
        a
    };
    proof {
        if a < b && (v@[a as int] == '-' || v@[a as int] == '+') {
            assert(num.drop_first() =~= v@.subrange(a + 1, b as int));
        }
    }
    let inf = to_chars("inf");
    let infinity = to_chars("infinity");
    if eq_ignore_case_range(v, body_start, b, &inf) || eq_ignore_case_range(
        v,
        body_start,
        b,
        &infinity,
    ) {
        return Some(
            if negative {
                0
            } else {
                10000
            },
        );
    }
    match unsigned_hundredths_of(v, body_start, b) {
        None => None,
        Some(x) => Some(
            if negative {
                0
            } else {
                x
            },
        ),
    }
}

const EXPONENT_CAP: u128 = 0x2_0000_0000_0000_0000u128;

/// The exponent written in `[a, b)`, clamped to `-EXPONENT_CAP..=EXPONENT_CAP`.
fn clamped_exponent(v: &Vec<char>, a: usize, b: usize) -> (r: Option<i128>)
    requires
        a <= b <= v@.len(),
    ensures
        match exponent_value(v@.subrange(a as int, b as int)) {
            Some(x) => r == Some(clamp_exponent(x) as i128),
            None => r is None,
        },
{
    let ghost e = v@.subrange(a as int, b as int);
    let negative = a < b && v[a] == '-';
    let ds = if a < b && (v[a] == '-' || v[a] == '+') {
        a + 1
    } else {
        a
    };
    proof {
        if a < b && (v@[a as int] == '-' || v@[a as int] == '+') {
            assert(e.drop_first() =~= v@.subrange(a + 1, b as int));
        }
    }
    if ds == b || !all_digits_in(v, ds, b) {
        return None;
    }
    let m = capped_digits(v, ds, b, EXPONENT_CAP);
    if negative {
        Some(-(m as i128))
    } else {
        Some(m as i128)
    }
}

fn pow10_small(s: u32) -> (r: u64)
    requires
        s <= 4,
    ensures
        r == pow10(s as nat),
        1 <= r <= 10000,
{
    proof {
        reveal_with_fuel(pow10, 5);
    }
    match s {
        0 => 1,
        1 => 10,
        2 => 100,
        3 => 1000,
        _ => 10000,
    }
}

/// `unsigned_hundredths` of `[a, b)`, clamped to `0..=10000`.
fn unsigned_hundredths_of(v: &Vec<char>, a: usize, b: usize) -> (r: Option<u32>)
    requires
        a <= b <= v@.len(),
    ensures
        match unsigned_hundredths(v@.subrange(a as int, b as int)) {
            Some(h) => r == Some(clamp_whole(h) as u32),
            None => r is None,
        },
{
    let ghost body = v@.subrange(a as int, b as int);
    let k = span_from(v, a, b, CharClass::NotExponentMark);
    let ghost m = v@.subrange(a as int, k as int);
    proof {
        assert(body.take(k - a) =~= m);
        if k < b {
            assert(body.skip(k - a + 1) =~= v@.subrange(k + 1, b as int));
        }
    }
    let x: i128 = if k < b {
        match clamped_exponent(v, k + 1, b) {
            Some(x) => x,
            None => {
                return None;
            },
        }
    } else {
        0
    };
    let mut dot: Vec<char> = Vec::new();
    dot.push('.');
    assert(dot@ =~= seq!['.']);
    let found = find_in(v, a, k, &dot);
    proof {
        lemma_find_from(m, dot@, 0);
    }
    let (int_end, frac_start) = match found {
        Some(d) => (d, d + 1),
        None => (k, k),
    };
    proof {
        match found {
            Some(d) => {
                assert(m.take(d - a) =~= v@.subrange(a as int, d as int));
                assert(m.skip(d - a + 1) =~= v@.subrange(d + 1, k as int));
            },
            None => {},
        }
    }
    if !all_digits_in(v, a, int_end) || !all_digits_in(v, frac_start, k) || (int_end - a) + (k
        - frac_start) == 0 {
        return None;
    }
    let ds = chars_of_ranges(v, a, int_end, frac_start, k);
    let ghost ip = v@.subrange(a as int, int_end as int);
    let ghost fp = v@.subrange(frac_start as int, k as int);
    proof {
        lemma_all_digits_concat(ip, fp);
        assert(mantissa(m) == Some((ds@, (k - frac_start) as nat)));
    }
    let ghost xt: int = if k < b {
        exponent_value(body.skip(k - a + 1))->0
    } else {
        0
    };
    Some(scale_clamped(&ds, k - frac_start, x, Ghost(xt)))
}

/// The characters of `[a, b)` followed by those of `[c, d)`.
fn chars_of_ranges(v: &Vec<char>, a: usize, b: usize, c: usize, d: usize) -> (r: Vec<char>)
    requires
        a <= b <= v@.len(),
        c <= d <= v@.len(),
    ensures
        r@ == v@.subrange(a as int, b as int) + v@.subrange(c as int, d as int),
{
    let mut out: Vec<char> = Vec::new();
    let mut i = a;
    while i < b
        invariant
            a <= i <= b <= v@.len(),
            out@ == v@.subrange(a as int, i as int),
        decreases b - i,
    {
        out.push(v[i]);
        assert(out@ =~= v@.subrange(a as int, i + 1));
        i += 1;
    }
    let mut j = c;
    while j < d
        invariant
            a <= b <= v@.len(),
            c <= j <= d <= v@.len(),
            out@ == v@.subrange(a as int, b as int) + v@.subrange(c as int, j as int),
        decreases d - j,
    {
        out.push(v[j]);
        assert(out@ =~= v@.subrange(a as int, b as int) + v@.subrange(c as int, j + 1));
        j += 1;
    }
    out
}

/// The hundredths that the digits `ds`, `f` of them after the point, denote
/// with the exponent `xt` (given clamped as `x`), clamped to `0..=10000`.
fn scale_clamped(ds: &Vec<char>, f: usize, x: i128, Ghost(xt): Ghost<int>) -> (r: u32)
    requires
        all_digits(ds@),
        f <= ds@.len(),
        x == clamp_exponent(xt),
    ensures
        r == clamp_whole(scaled(digits_value(ds@), xt + 2 - f)),
{
    let len = ds.len();
    assert(ds@.len() < 0x1_0000_0000_0000_0000);
    proof {
        lemma_percent_scale(ds@, f as nat, x as int, xt);
        assert(ds@.subrange(0, len as int) =~= ds@);
    }
    let s: i128 = x + 2 - f as i128;
    let all = capped_digits(ds, 0, len, 10001);
    if s >= 0 {
        if all == 0 {
            0
        } else if s >= 5 {
            10000
        } else {
            let p = pow10_small(s as u32);
            assert(all * p <= 10001 * 10000) by (nonlinear_arith)
                requires
                    all <= 10001,
                    p <= 10000,
            ;
            let prod = (all as u64) * p;
            if prod > 10000 {
                10000
            } else {
                prod as u32
            }
        }
    } else {
        let t = -s;
        if t >= len as i128 {
            0
        } else {
            let keep = len - t as usize;
            proof {
                assert(ds@.subrange(0, keep as int) =~= ds@.take(ds@.len() + (x + 2 - f)));
                let pre = ds@.take(keep as int);
                assert(all_digits(pre)) by {
                    assert forall|i: int| 0 <= i < pre.len() implies is_digit(#[trigger] pre[i]) by {
                        assert(pre[i] == ds@[i]);
                    }
                }
            }
            let c = capped_digits(ds, 0, keep, 10001);
            if c > 10000 {
                10000
            } else {
                c as u32
            }
        }
    }
}

proof fn lemma_pow10_positive(n: nat)
    ensures
        pow10(n) >= 1,
    decreases n,
{
    if n > 0 {
        lemma_pow10_positive((n - 1) as nat);
    }
}

proof fn lemma_pow10_monotone(a: nat, b: nat)
    requires
        a <= b,
    ensures
        pow10(a) <= pow10(b),
    decreases b,
{
    if a < b {
        lemma_pow10_monotone(a, (b - 1) as nat);
        lemma_pow10_positive((b - 1) as nat);
    }
}

/// A string of `n` digits denotes less than `10^n`.
proof fn lemma_digits_below_pow10(s: Seq<char>)
    requires
        all_digits(s),
    ensures
        digits_value(s) < pow10(s.len()),
    decreases s.len(),
{
    if s.len() > 0 {
        let init = s.drop_last();
        assert(is_digit(s[s.len() - 1]));
        assert(all_digits(init)) by {
            assert forall|i: int| 0 <= i < init.len() implies is_digit(#[trigger] init[i]) by {
                assert(init[i] == s[i]);
            }
        }
        lemma_digits_below_pow10(init);
        assert(digits_value(s) == digits_value(init) * 10 + digit_value(s.last()));
        assert(pow10(s.len()) == 10 * pow10(init.len()));
        assert(digits_value(init) * 10 + digit_value(s.last()) < 10 * pow10(init.len())) by (
            nonlinear_arith)
            requires
                digits_value(init) < pow10(init.len()),
                digit_value(s.last()) < 10,
        ;
    }
}

/// Dropping the last `t` digits divides the value by `10^t`, rounding down.
proof fn lemma_digits_drop_tail(s: Seq<char>, t: nat)
    requires
        all_digits(s),
        t <= s.len(),
    ensures
        digits_value(s.take(s.len() - t)) == digits_value(s) / pow10(t),
    decreases t,
{
    let d = digits_value(s);
    if t == 0 {
        assert(s.take(s.len() as int) =~= s);
        assert(d / 1 == d);
    } else {
        let u = s.take(s.len() - t + 1);
        lemma_digits_drop_tail(s, (t - 1) as nat);
        assert(s.take(s.len() - (t - 1) as nat) == u);
        assert(digits_value(u) == d / pow10((t - 1) as nat));
        assert(u.drop_last() =~= s.take(s.len() - t));
        assert(is_digit(u.last())) by {
            assert(u.last() == s[s.len() - t]);
        }
        let q = digits_value(u.drop_last());
        let r = digit_value(u.last());
        assert(digits_value(u) == q * 10 + r);
        vstd::arithmetic::div_mod::lemma_div_multiples_vanish_fancy(q as int, r as int, 10);
        assert((10 * q + r) / 10 == q);
        assert(digits_value(u) / 10 == q);
        lemma_pow10_positive((t - 1) as nat);
        let c = pow10((t - 1) as nat);
        vstd::arithmetic::div_mod::lemma_div_denominator(d as int, c as int, 10);
        assert((d / c) / 10 == d / (c * 10));
        assert(pow10(t) == c * 10);
        assert(q == d / pow10(t));
    }
}

spec fn clamp_exponent(x: int) -> int {
    if x > EXPONENT_CAP {
        EXPONENT_CAP as int
    } else if x < -EXPONENT_CAP {
        -EXPONENT_CAP
    } else {
        x
    }
}

/// How the clamped exponent `xc` decides the hundredths of `ds` with `f`
/// fractional digits and the exponent `xt`.
proof fn lemma_percent_scale(ds: Seq<char>, f: nat, xc: int, xt: int)
    requires
        all_digits(ds),
        f <= ds.len(),
        ds.len() < 0x1_0000_0000_0000_0000,
        xc == clamp_exponent(xt),
    ensures
        ({
            let d = digits_value(ds);
            let sc = xc + 2 - f;
            let h = clamp_whole(scaled(d, xt + 2 - f));
            &&& sc >= 0 && d == 0 ==> h == 0
            &&& sc >= 5 && d > 0 ==> h == 10000
            &&& 0 <= sc < 5 ==> h == clamp_whole(capped(d, 10001) * pow10(sc as nat))
            &&& sc < 0 && -sc >= ds.len() ==> h == 0
            &&& sc < 0 && -sc < ds.len() ==> h == clamp_whole(
                capped(digits_value(ds.take(ds.len() + sc)), 10001),
            )
        }),
{
    let d = digits_value(ds);
    let sc = xc + 2 - f;
    let st = xt + 2 - f;
    if sc >= 0 {
        assert(st >= sc);
        assert(sc < 5 ==> st == sc);
        if d == 0 {
            assert(scaled(d, st) == 0) by (nonlinear_arith)
                requires
                    d == 0,
                    st >= 0,
            ;
        } else if sc >= 5 {
            lemma_pow10_monotone(5, st as nat);
            reveal_with_fuel(pow10, 6);
            assert(d * pow10(st as nat) >= pow10(st as nat)) by (nonlinear_arith)
                requires
                    d >= 1,
            ;
        } else {
            let p = pow10(sc as nat);
            lemma_pow10_positive(sc as nat);
            if d > 10001 {
                assert(d * p >= d && 10001 * p >= 10001) by (nonlinear_arith)
                    requires
                        p >= 1,
                ;
            }
        }
    } else {
        assert(st <= sc);
        lemma_digits_below_pow10(ds);
        if -sc >= ds.len() {
            lemma_pow10_monotone(ds.len(), (-st) as nat);
            vstd::arithmetic::div_mod::lemma_basic_div(d as int, pow10((-st) as nat) as int);
        } else {
            assert(st == sc);
            lemma_digits_drop_tail(ds, (-sc) as nat);
        }
    }
}

proof fn lemma_all_digits_concat(x: Seq<char>, y: Seq<char>)
    requires
        all_digits(x),
        all_digits(y),
    ensures
        all_digits(x + y),
{
    assert forall|i: int| 0 <= i < (x + y).len() implies is_digit(#[trigger] (x + y)[i]) by {
        if i < x.len() {
            assert((x + y)[i] == x[i]);
        } else {
            assert((x + y)[i] == y[i - x.len()]);
        }
    }
}

proof fn lemma_digit_char(d: nat)
    requires
        d < 10,
    ensures
        is_digit(digit_char(d)),
        digit_value(digit_char(d)) == d,
{
}

/// The decimal numeral of `n` is a digit string that denotes `n`, with one
/// digit below 10 and two from 10 to 99.
pub proof fn lemma_decimal_denotes(n: nat)
    ensures
        all_digits(decimal(n)),
        digits_value(decimal(n)) == n,
        decimal(n).len() >= 1,
        n < 10 ==> decimal(n).len() == 1,
        10 <= n < 100 ==> decimal(n).len() == 2,
    decreases n,
{
    if n < 10 {
        lemma_digit_char(n);
        let s = decimal(n);
        assert(s.drop_last() =~= Seq::<char>::empty());
        assert(digits_value(Seq::<char>::empty()) == 0);
        assert(s.last() == digit_char(n));
        assert(digits_value(s) == digits_value(s.drop_last()) * 10 + digit_value(s.last()));
    } else {
        lemma_decimal_denotes(n / 10);
        lemma_digit_char(n % 10);
        let s = decimal(n);
        let init = decimal(n / 10);
        assert(s.drop_last() =~= init);
        assert(s.last() == digit_char(n % 10));
        assert(digits_value(s) == digits_value(init) * 10 + digit_value(digit_char(n % 10)));
        vstd::arithmetic::div_mod::lemma_fundamental_div_mod(n as int, 10);
        assert forall|i: int| 0 <= i < s.len() implies is_digit(#[trigger] s[i]) by {
            if i < init.len() {
                assert(s[i] == init[i]);
            }
        }
    }
}

/// The two-digit numeral of `n` is a digit string that denotes `n`, of two
/// digits below 100 and more above.
pub proof fn lemma_pad2_denotes(n: nat)
    ensures
        all_digits(pad2(n)),
        digits_value(pad2(n)) == n,
        pad2(n).len() >= 2,
        n < 100 ==> pad2(n).len() == 2,
{
    lemma_decimal_denotes(n);
    if n < 10 {
        lemma_digit_char(n);
        lemma_digit_char(0);
        let s = pad2(n);
        assert(s.drop_last() =~= seq!['0']);
        assert(seq!['0'].drop_last() =~= Seq::<char>::empty());
        assert(digits_value(Seq::<char>::empty()) == 0);
        assert(digit_value('0') == 0);
        assert(digits_value(seq!['0']) == digits_value(seq!['0'].drop_last()) * 10 + digit_value('0'));
        assert(digits_value(seq!['0']) == 0);
        assert(s.last() == digit_char(n));
        assert(digits_value(s) == digits_value(s.drop_last()) * 10 + digit_value(s.last()));
    } else if n >= 100 {
        assert(decimal(n) == decimal(n / 10).push(digit_char(n % 10)));
        lemma_decimal_denotes(n / 10);
    }
}

} // verus!
