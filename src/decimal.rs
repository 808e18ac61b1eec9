//! Decimal numbers as they appear in the numeric attributes of an invoice.
use vstd::prelude::*;

verus! {

/// A decimal number: `(-1)^negative * mantissa / 10^scale`.
///
/// `"100.00"` reads as mantissa 10000 with scale 2; the digits are kept
/// exactly, so no rounding happens between the text and the value. An
/// exponent is folded in (`"1.5E-1"` is mantissa 15, scale 2). Infinities
/// and NaN, which a float could hold, have no `Decimal`.
#[derive(Clone, Copy, Debug, PartialEq, Eq, Structural)]
pub struct Decimal {
    pub negative: bool,
    pub mantissa: u128,
    pub scale: usize,
}

pub open spec fn is_digit(c: char) -> bool {
    '0' <= c && c <= '9'
}

pub open spec fn digit_value(c: char) -> nat {
    (c as int - '0' as int) as nat
}

/// Number of `.` characters in `s`.
pub open spec fn dot_count(s: Seq<char>) -> nat
    decreases s.len(),
{
    if s.len() == 0 {
        0
    } else {
        dot_count(s.drop_last()) + if s.last() == '.' { 1nat } else { 0nat }
    }
}

/// The digits of `s` read as one integer, with any `.` skipped.
pub open spec fn mantissa_of(s: Seq<char>) -> nat
    decreases s.len(),
{
    if s.len() == 0 {
        0
    } else if s.last() == '.' {
        mantissa_of(s.drop_last())
    } else {
        mantissa_of(s.drop_last()) * 10 + digit_value(s.last())
    }
}

/// Number of characters after the `.` of `s` (zero where there is none).
pub open spec fn scale_of(s: Seq<char>) -> nat
    decreases s.len(),
{
    if s.len() == 0 || s.last() == '.' {
        0
    } else if dot_count(s.drop_last()) > 0 {
        scale_of(s.drop_last()) + 1
    } else {
        0
    }
}

/// Length of the sign that opens `s`: one for a leading `+` or `-`, else zero.
pub open spec fn sign_len(s: Seq<char>) -> int {
    if s.len() > 0 && (s[0] == '-' || s[0] == '+') {
        1
    } else {
        0
    }
}

/// The unsigned part of a number: digits with at most one `.`, and at least
/// one digit.
pub open spec fn is_unsigned_decimal(s: Seq<char>) -> bool {
    &&& forall|i: int| 0 <= i < s.len() ==> is_digit(#[trigger] s[i]) || s[i] == '.'
    &&& dot_count(s) <= 1
    &&& s.len() > dot_count(s)
}

pub open spec fn is_xml_space(c: char) -> bool {
    c == ' ' || c == '\t' || c == '\n' || c == '\r'
}

/// `s` without the XML whitespace that opens it.
pub open spec fn trim_start(s: Seq<char>) -> Seq<char>
    decreases s.len(),
{
    if s.len() > 0 && is_xml_space(s[0]) {
        trim_start(s.skip(1))
    } else {
        s
    }
}

/// `s` without the XML whitespace that closes it.
pub open spec fn trim_end(s: Seq<char>) -> Seq<char>
    decreases s.len(),
{
    if s.len() > 0 && is_xml_space(s.last()) {
        trim_end(s.drop_last())
    } else {
        s
    }
}

pub open spec fn is_exponent_mark(c: char) -> bool {
    c == 'e' || c == 'E'
}

/// `p` is the first exponent mark of `s`.
pub open spec fn first_mark_at(s: Seq<char>, p: int) -> bool {
    &&& 0 <= p < s.len()
    &&& is_exponent_mark(s[p])
    &&& forall|j: int| 0 <= j < p ==> !is_exponent_mark(#[trigger] s[j])
}

/// Index of the first exponent mark of `s`, or its length where it has none.
pub open spec fn mark_of(s: Seq<char>) -> int {
    if exists|p: int| first_mark_at(s, p) {
        choose|p: int| first_mark_at(s, p)
    } else {
        s.len() as int
    }
}

proof fn lemma_mark_of(s: Seq<char>, p: int)
    requires
        0 <= p <= s.len(),
        forall|j: int| 0 <= j < p ==> !is_exponent_mark(#[trigger] s[j]),
        p < s.len() ==> is_exponent_mark(s[p]),
    ensures
        mark_of(s) == p,
{
    if p < s.len() {
        assert(first_mark_at(s, p));
        let q = choose|q: int| first_mark_at(s, q);
        if q < p {
            assert(!is_exponent_mark(s[q]));
        } else if q > p {
            assert(!is_exponent_mark(s[p]));
        }
    } else {
        assert forall|q: int| !first_mark_at(s, q) by {
            if 0 <= q < s.len() {
                assert(!is_exponent_mark(s[q]));
            }
        }
    }
}

pub open spec fn pow10(n: nat) -> nat
    decreases n,
{
    if n == 0 {
        1
    } else {
        10 * pow10((n - 1) as nat)
    }
}

/// The exponent written after the mark: an optional sign and at least one
/// digit, whose magnitude fits in 128 bits.
pub open spec fn exponent_of(s: Seq<char>) -> Option<int> {
    let digits = s.skip(sign_len(s));
    if digits.len() > 0 && dot_count(digits) == 0 && is_unsigned_decimal(digits)
        && mantissa_of(digits) <= u128::MAX {
        Some(
            if sign_len(s) == 1 && s[0] == '-' {
                -mantissa_of(digits)
            } else {
                mantissa_of(digits) as int
            },
        )
    } else {
        None
    }
}

/// `mantissa / 10^scale * 10^e` as a mantissa and a scale, where they fit.
pub open spec fn with_exponent(negative: bool, mantissa: nat, scale: nat, e: int) -> Option<
    Decimal,
> {
    if e <= scale {
        if scale - e <= usize::MAX {
            Some(Decimal { negative, mantissa: mantissa as u128, scale: (scale - e) as usize })
        } else {
            None
        }
    } else if mantissa * pow10((e - scale) as nat) <= u128::MAX {
        Some(
            Decimal {
                negative,
                mantissa: (mantissa * pow10((e - scale) as nat)) as u128,
                scale: 0,
            },
        )
    } else {
        None
    }
}

/// The decimal that the number `t` (no surrounding whitespace) denotes: an
/// optional sign, digits with at most one `.`, and an optional exponent
/// after `e` or `E`; the digits must fit in 128 bits.
pub open spec fn number_of(t: Seq<char>) -> Option<Decimal> {
    let r = t.skip(sign_len(t));
    let negative = sign_len(t) == 1 && t[0] == '-';
    let p = mark_of(r);
    let has_mark = p < r.len();
    let body = r.take(p);
    if !(is_unsigned_decimal(body) && mantissa_of(body) <= u128::MAX) {
        None
    } else if !has_mark {
        Some(
            Decimal {
                negative,
                mantissa: mantissa_of(body) as u128,
                scale: scale_of(body) as usize,
            },
        )
    } else {
        match exponent_of(r.skip(p + 1)) {
            Some(e) => with_exponent(negative, mantissa_of(body), scale_of(body), e),
            None => None,
        }
    }
}

/// The decimal that the text `s` denotes, if it is one: the number that
/// remains once XML whitespace is trimmed from both ends. Infinities and
/// NaN are no decimal.
pub open spec fn decimal_of(s: Seq<char>) -> Option<Decimal> {
    number_of(trim_end(trim_start(s)))
}

proof fn lemma_prefix_bounds(s: Seq<char>, i: int)
    requires
        0 <= i <= s.len(),
    ensures
        dot_count(s.take(i)) <= dot_count(s),
        mantissa_of(s.take(i)) <= mantissa_of(s),
        scale_of(s) < s.len() || s.len() == 0,
    decreases s.len(),
{
    if s.len() > 0 {
        if i < s.len() {
            lemma_prefix_bounds(s.drop_last(), i);
            assert(s.drop_last().take(i) =~= s.take(i));
        } else {
            assert(s.take(i) =~= s);
            lemma_prefix_bounds(s.drop_last(), 0);
        }
    }
}

/// Reads the digits, with at most one `.`, of `s` from `from` to `to`.
fn parse_unsigned(s: &str, from: usize, to: usize) -> (r: Option<(u128, usize, bool)>)
    requires
        from <= to <= s@.len(),
    ensures
        match r {
            Some((m, sc, dot)) => is_unsigned_decimal(s@.subrange(from as int, to as int))
                && mantissa_of(s@.subrange(from as int, to as int)) == m
                && scale_of(s@.subrange(from as int, to as int)) == sc
                && dot == (dot_count(s@.subrange(from as int, to as int)) == 1),
            None => !(is_unsigned_decimal(s@.subrange(from as int, to as int)) && mantissa_of(
                s@.subrange(from as int, to as int),
            ) <= u128::MAX),
        },
{
    let ghost body = s@.subrange(from as int, to as int);
    let mut i: usize = from;
    let mut mantissa: u128 = 0;
    let mut scale: usize = 0;
    let mut dots: usize = 0;
    let mut digits: usize = 0;
    assert(body.take(0) =~= Seq::<char>::empty());
    while i < to
        invariant
            from <= i <= to <= s@.len(),
            body == s@.subrange(from as int, to as int),
            dots == dot_count(body.take(i - from)),
            dots <= 1,
            mantissa == mantissa_of(body.take(i - from)),
            scale == scale_of(body.take(i - from)),
            forall|j: int| 0 <= j < i - from ==> is_digit(#[trigger] body[j]) || body[j] == '.',
            digits + dots == i - from,
            scale <= digits,
        decreases to - i,
    {
        let c = s.get_char(i);
        let ghost p = body.take(i - from);
        let ghost q = body.take(i + 1 - from);
        assert(q.drop_last() =~= p);
        assert(q.last() == c);
        if c == '.' {
            if dots == 1 {
                proof {
                    lemma_prefix_bounds(body, i + 1 - from);
                }
                return None;
            }
            dots = 1;
        } else if '0' <= c && c <= '9' {
            let d = (c as u32 - '0' as u32) as u128;
            assert(d == digit_value(c));
            match mantissa.checked_mul(10) {
                Some(m) => match m.checked_add(d) {
                    Some(m2) => {
                        mantissa = m2;
                    },
                    None => {
                        proof {
                            lemma_prefix_bounds(body, i + 1 - from);
                        }
                        return None;
                    },
                },
                None => {
                    proof {
                        lemma_prefix_bounds(body, i + 1 - from);
                    }
                    return None;
                },
            }
            if dots == 1 {
                scale = scale + 1;
            }
            digits = digits + 1;
        } else {
            assert(!(is_digit(body[i - from]) || body[i - from] == '.'));
            return None;
        }
        i = i + 1;
    }
    assert(body.take(i - from) =~= body);
    if digits == 0 {
        return None;
    }
    Some((mantissa, scale, dots == 1))
}

/// Length of the sign at `from` in `s`, before `to`.
fn sign_at(s: &str, from: usize, to: usize) -> (r: (usize, bool))
    requires
        from <= to <= s@.len(),
    ensures
        r.0 == sign_len(s@.subrange(from as int, to as int)),
        r.1 == (r.0 == 1 && s@[from as int] == '-'),
{
    if from < to {
        let c = s.get_char(from);
        if c == '-' || c == '+' {
            return (1, c == '-');
        }
    }
    (0, false)
}

/// Reads a decimal number from its text.
pub fn parse_decimal(s: &str) -> (r: Option<Decimal>)
    ensures
        r == decimal_of(s@),
{
    let (i, j) = trimmed_range(s);
    parse_number(s, i, j)
}

/// The range of `s` left once XML whitespace is trimmed from both ends.
fn trimmed_range(s: &str) -> (r: (usize, usize))
    ensures
        r.0 <= r.1 <= s@.len(),
        trim_end(trim_start(s@)) == s@.subrange(r.0 as int, r.1 as int),
{
    let n = s.unicode_len();
    let mut i: usize = 0;
    assert(s@.skip(0) =~= s@);
    while i < n && is_space_at(s, i)
        invariant
            i <= n == s@.len(),
            trim_start(s@) == trim_start(s@.skip(i as int)),
        decreases n - i,
    {
        assert(s@.skip(i as int).skip(1) =~= s@.skip(i + 1));
        i = i + 1;
    }
    assert(trim_start(s@) == s@.skip(i as int));
    let mut j: usize = n;
    assert(s@.skip(i as int) =~= s@.subrange(i as int, n as int));
    while j > i && is_space_at(s, j - 1)
        invariant
            i <= j <= n == s@.len(),
            trim_end(s@.subrange(i as int, n as int)) == trim_end(s@.subrange(i as int, j as int)),
        decreases j,
    {
        assert(s@.subrange(i as int, j as int).drop_last() =~= s@.subrange(i as int, j - 1));
        j = j - 1;
    }
    (i, j)
}

/// Reads the number that `s` holds from `i` to `j`.
#[verifier::rlimit(40)]
fn parse_number(s: &str, i: usize, j: usize) -> (r: Option<Decimal>)
    requires
        i <= j <= s@.len(),
    ensures
        r == number_of(s@.subrange(i as int, j as int)),
{
    let ghost t = s@.subrange(i as int, j as int);
    let (sl, negative) = sign_at(s, i, j);
    let start = i + sl;
    let ghost r = t.skip(sl as int);
    assert(r =~= s@.subrange(start as int, j as int));
    let mut p: usize = start;
    while p < j && !is_mark_at(s, p)
        invariant
            start <= p <= j <= s@.len(),
            r =~= s@.subrange(start as int, j as int),
            forall|k: int| 0 <= k < p - start ==> !is_exponent_mark(#[trigger] r[k]),
        decreases j - p,
    {
        p = p + 1;
    }
    let ghost pp = p - start;
    let has_mark = p < j;
    proof {
        lemma_mark_of(r, pp);
    }
    assert(r.take(pp) =~= s@.subrange(start as int, p as int));
    let (mantissa, scale, _) = match parse_unsigned(s, start, p) {
        Some(v) => v,
        None => {
            return None;
        },
    };
    if !has_mark {
        return Some(Decimal { negative, mantissa, scale });
    }
    assert(r.skip(pp + 1) =~= s@.subrange(p + 1, j as int));
    let (esl, eneg) = sign_at(s, p + 1, j);
    let ghost ex = s@.subrange(p + 1, j as int);
    assert(ex.skip(esl as int) =~= s@.subrange(p + 1 + esl, j as int));
    let (e, _, dot) = match parse_unsigned(s, p + 1 + esl, j) {
        Some(v) => v,
        None => {
            return None;
        },
    };
    if dot {
        return None;
    }
    scaled(negative, mantissa, scale, eneg, e)
}

proof fn lemma_pow10_grows(a: nat, b: nat)
    requires
        a <= b,
    ensures
        pow10(a) <= pow10(b),
        pow10(a) >= 1,
    decreases b,
{
    if a < b {
        lemma_pow10_grows(a, (b - 1) as nat);
    } else if a > 0 {
        lemma_pow10_grows((a - 1) as nat, (a - 1) as nat);
    }
}

/// `mantissa / 10^scale`, times ten to the power `e` (negated where `eneg`).
fn scaled(negative: bool, mantissa: u128, scale: usize, eneg: bool, e: u128) -> (r: Option<
    Decimal,
>)
    ensures
        r == with_exponent(
            negative,
            mantissa as nat,
            scale as nat,
            if eneg {
                -(e as int)
            } else {
                e as int
            },
        ),
{
    if eneg {
        if e > (usize::MAX - scale) as u128 {
            return None;
        }
        let r = Decimal { negative, mantissa, scale: scale + e as usize };
        assert(r.scale == scale - (-(e as int)));
        return Some(r);
    }
    if e <= scale as u128 {
        let r = Decimal { negative, mantissa, scale: scale - e as usize };
        assert(r.scale == scale - e);
        return Some(r);
    }
    let d = e - scale as u128;
    if mantissa == 0 {
        assert(0 * pow10(d as nat) == 0);
        return Some(Decimal { negative, mantissa: 0, scale: 0 });
    }
    let mut m = mantissa;
    let mut k: u128 = 0;
    while k < d
        invariant
            k <= d,
            d == e - scale,
            e > scale,
            !eneg,
            mantissa > 0,
            m == mantissa * pow10(k as nat),
        decreases d - k,
    {
        assert(pow10((k + 1) as nat) == 10 * pow10(k as nat));
        match m.checked_mul(10) {
            Some(x) => {
                assert(x == mantissa * pow10((k + 1) as nat)) by (nonlinear_arith)
                    requires
                        x == m * 10,
                        m == mantissa * pow10(k as nat),
                        pow10((k + 1) as nat) == 10 * pow10(k as nat),
                ;
                m = x;
            },
            None => {
                proof {
                    lemma_pow10_grows((k + 1) as nat, d as nat);
                    let a = pow10((k + 1) as nat);
                    let b = pow10(d as nat);
                    assert(mantissa * a <= mantissa * b) by (nonlinear_arith)
                        requires
                            a <= b,
                    ;
                    assert(mantissa * a == m * 10) by (nonlinear_arith)
                        requires
                            m == mantissa * pow10(k as nat),
                            a == 10 * pow10(k as nat),
                    ;
                    assert(mantissa * b > u128::MAX);
                    assert((e as int - scale as int) as nat == d as nat);
                }
                return None;
            },
        }
        k = k + 1;
    }
    Some(Decimal { negative, mantissa: m, scale: 0 })
}

fn is_space_at(s: &str, i: usize) -> (r: bool)
    requires
        i < s@.len(),
    ensures
        r == is_xml_space(s@[i as int]),
{
    let c = s.get_char(i);
    c == ' ' || c == '\t' || c == '\n' || c == '\r'
}

fn is_mark_at(s: &str, i: usize) -> (r: bool)
    requires
        i < s@.len(),
    ensures
        r == is_exponent_mark(s@[i as int]),
{
    let c = s.get_char(i);
    c == 'e' || c == 'E'
}

} // verus!
