//! Confidence scores.
//!
//! A score is a number between 0 and 1. It is held as the decimal numeral
//! that denotes it, so that the range is decided on exact digits.

use vstd::prelude::*;

verus! {

/// Most digits that a numeral's mantissa may hold.
pub const MAX_MANTISSA_DIGITS: usize = 32;

/// Most digits that a numeral's exponent may hold.
pub const MAX_EXPONENT_DIGITS: usize = 3;

pub open spec fn is_digit(c: char) -> bool {
    '0' <= c && c <= '9'
}

pub open spec fn digit(c: char) -> nat {
    (c as int - '0' as int) as nat
}

/// The number that a run of decimal digits denotes.
pub open spec fn digits_value(s: Seq<char>) -> nat
    decreases s.len(),
{
    if s.len() == 0 {
        0
    } else {
        digits_value(s.drop_last()) * 10 + digit(s.last())
    }
}

pub open spec fn pow10(n: nat) -> nat
    decreases n,
{
    if n == 0 {
        1
    } else {
        10 * pow10((n - 1) as nat)
    }
}

/// How many digits stand in `s` from position `from` on, without a gap.
pub open spec fn digit_run(s: Seq<char>, from: int) -> nat
    decreases s.len() - from,
{
    if 0 <= from < s.len() && is_digit(s[from]) {
        1 + digit_run(s, from + 1)
    } else {
        0
    }
}

/// The parts of a decimal numeral: `-`, digits, `.` and digits, `e` or `E`
/// with a sign and digits; all but the first run of digits may be missing.
pub struct Numeral {
    pub negative: bool,
    pub whole: Seq<char>,
    pub fraction: Seq<char>,
    pub exponent_negative: bool,
    pub exponent: Seq<char>,
}

/// The parts of `s`, where `s` is a numeral with at most
/// `MAX_MANTISSA_DIGITS` digits before the exponent and at most
/// `MAX_EXPONENT_DIGITS` in it.
pub open spec fn numeral_parts(s: Seq<char>) -> Option<Numeral> {
    let a: int = if s.len() > 0 && s[0] == '-' { 1 } else { 0 };
    let b: int = a + digit_run(s, a);
    let has_fraction = b < s.len() && s[b] == '.';
    let c: int = if has_fraction { b + 1 + digit_run(s, b + 1) } else { b };
    let has_exponent = c < s.len() && (s[c] == 'e' || s[c] == 'E');
    let signed = has_exponent && c + 1 < s.len() && (s[c + 1] == '-' || s[c + 1] == '+');
    let d: int = if signed { c + 2 } else if has_exponent { c + 1 } else { c };
    let end: int = if has_exponent { d + digit_run(s, d) } else { d };
    if b > a && (has_fraction ==> c > b + 1) && (has_exponent ==> end > d) && end == s.len()
        && (b - a) + (c - b) <= MAX_MANTISSA_DIGITS + (if has_fraction { 1int } else { 0int })
        && end - d <= MAX_EXPONENT_DIGITS {
        Some(
            Numeral {
                negative: a == 1,
                whole: s.subrange(a, b),
                fraction: if has_fraction { s.subrange(b + 1, c) } else { Seq::empty() },
                exponent_negative: signed && s[c + 1] == '-',
                exponent: s.subrange(d, end),
            },
        )
    } else {
        None
    }
}

/// Whether the number that `n` denotes lies between 0 and 1, both included.
/// With `m` the mantissa's digits read as one number and `k` the exponent
/// less the count of fraction digits, the number is `m` times ten to the `k`.
pub open spec fn in_unit_interval(n: Numeral) -> bool {
    let m = digits_value(n.whole + n.fraction);
    let e: int = if n.exponent_negative {
        -(digits_value(n.exponent) as int)
    } else {
        digits_value(n.exponent) as int
    };
    m == 0 || (!n.negative && scaled_in_unit(m, e - n.fraction.len()))
}

/// Whether `m` times ten to the `k` is at most 1.
pub open spec fn scaled_in_unit(m: nat, k: int) -> bool {
    if k >= 0 {
        m * pow10(k as nat) <= 1
    } else {
        m <= pow10((-k) as nat)
    }
}

/// Whether `s` is a numeral for a number between 0 and 1.
pub open spec fn unit_numeral(s: Seq<char>) -> bool {
    numeral_parts(s) matches Some(n) && in_unit_interval(n)
}

proof fn lemma_pow10_step(n: nat)
    ensures
        pow10(n + 1) == 10 * pow10(n),
        pow10(n) >= 1,
    decreases n,
{
    if n > 0 {
        lemma_pow10_step((n - 1) as nat);
    }
}

proof fn lemma_pow10_monotonic(a: nat, b: nat)
    requires
        a <= b,
    ensures
        pow10(a) <= pow10(b),
    decreases b - a,
{
    if a < b {
        lemma_pow10_monotonic(a, (b - 1) as nat);
        lemma_pow10_step((b - 1) as nat);
    }
}

proof fn lemma_pow10_32()
    ensures
        pow10(32) == 100000000000000000000000000000000,
{
    reveal_with_fuel(pow10, 34);
}

proof fn lemma_digits_bound(s: Seq<char>)
    requires
        forall|i: int| 0 <= i < s.len() ==> is_digit(#[trigger] s[i]),
    ensures
        digits_value(s) < pow10(s.len()),
    decreases s.len(),
{
    if s.len() > 0 {
        lemma_digits_bound(s.drop_last());
        lemma_pow10_step((s.len() - 1) as nat);
    }
}

pub proof fn lemma_digit_run_digits(s: Seq<char>, from: int, i: int)
    requires
        0 <= from <= i < from + digit_run(s, from),
    ensures
        i < s.len(),
        is_digit(s[i]),
        digit_run(s, from) == (i - from) + digit_run(s, i),
    decreases i - from,
{
    if i > from {
        lemma_digit_run_digits(s, from + 1, i);
    }
}

/// The characters of `s`.
pub(crate) fn chars_of(s: &str) -> (r: Vec<char>)
    ensures
        r@ == s@,
{
    let mut out: Vec<char> = Vec::new();
    for c in it: s.chars()
        invariant
            it.seq() == s@,
            out@ == s@.take(it.index() as int),
    {
        proof {
            let k = it.index() as int;
            assert(s@.take(k + 1) == s@.take(k).push(s@[k]));
        }
        out.push(c);
    }
    proof {
        assert(s@.take(s@.len() as int) == s@);
    }
    out
}

pub(crate) fn is_digit_char(c: char) -> (r: bool)
    ensures
        r == is_digit(c),
{
    '0' <= c && c <= '9'
}

/// The end of the run of digits that starts at `from`.
pub(crate) fn skip_digits(v: &Vec<char>, from: usize) -> (end: usize)
    requires
        from <= v@.len(),
    ensures
        end == from + digit_run(v@, from as int),
        end <= v@.len(),
{
    let mut i: usize = from;
    while i < v.len() && is_digit_char(v[i])
        invariant
            from <= i <= v@.len(),
            digit_run(v@, from as int) == (i - from) + digit_run(v@, i as int),
        decreases v@.len() - i,
    {
        i += 1;
    }
    i
}

/// The number that the digits of `v` from `from` to `to` denote, after `acc`
/// was read from the digits `before` them.
pub(crate) fn read_digits(v: &Vec<char>, from: usize, to: usize, acc: u128, Ghost(before): Ghost<Seq<char>>) -> (r: u128)
    requires
        from <= to <= v@.len(),
        forall|i: int| from <= i < to ==> is_digit(#[trigger] v@[i]),
        forall|i: int| 0 <= i < before.len() ==> is_digit(#[trigger] before[i]),
        acc == digits_value(before),
        before.len() + (to - from) <= MAX_MANTISSA_DIGITS,
    ensures
        r == digits_value(before + v@.subrange(from as int, to as int)),
        r < pow10((before.len() + (to - from)) as nat),
{
    let mut r = acc;
    let mut i: usize = from;
    proof {
        assert(before + v@.subrange(from as int, from as int) == before);
    }
    while i < to
        invariant
            from <= i <= to <= v@.len(),
            forall|j: int| from <= j < to ==> is_digit(#[trigger] v@[j]),
            forall|j: int| 0 <= j < before.len() ==> is_digit(#[trigger] before[j]),
            before.len() + (to - from) <= MAX_MANTISSA_DIGITS,
            r == digits_value(before + v@.subrange(from as int, i as int)),
        decreases to - i,
    {
        let c = v[i];
        proof {
            let cur = before + v@.subrange(from as int, i as int);
            let next = before + v@.subrange(from as int, i + 1);
            assert(next.drop_last() == cur);
            assert(next.last() == c);
            assert forall|j: int| 0 <= j < next.len() implies is_digit(#[trigger] next[j]) by {
                if j >= before.len() {
                    assert(next[j] == v@[from + (j - before.len())]);
                }
            }
            lemma_digits_bound(next);
            lemma_pow10_monotonic(next.len(), 32);
            lemma_pow10_32();
        }
        r = r * 10 + (c as u128 - '0' as u128);
        i += 1;
    }
    proof {
        let all = before + v@.subrange(from as int, to as int);
        assert forall|j: int| 0 <= j < all.len() implies is_digit(#[trigger] all[j]) by {
            if j >= before.len() {
                assert(all[j] == v@[from + (j - before.len())]);
            }
        }
        lemma_digits_bound(all);
    }
    r
}

/// Ten to the `n`.
fn ten_to(n: usize) -> (r: u128)
    requires
        n <= 32,
    ensures
        r == pow10(n as nat),
{
    let mut r: u128 = 1;
    let mut i: usize = 0;
    while i < n
        invariant
            0 <= i <= n <= 32,
            r == pow10(i as nat),
        decreases n - i,
    {
        proof {
            lemma_pow10_step(i as nat);
            lemma_pow10_monotonic((i + 1) as nat, 32);
            lemma_pow10_32();
        }
        r = r * 10;
        i += 1;
    }
    r
}

/// Where the parts of a numeral stand in its characters.
struct Layout {
    negative: bool,
    whole_from: usize,
    whole_to: usize,
    fraction_from: usize,
    fraction_to: usize,
    exponent_negative: bool,
    exponent_from: usize,
    exponent_to: usize,
}

impl Layout {
    /// Whether the layout marks, in `s`, the parts `n`, each a run of digits.
    spec fn marks(&self, s: Seq<char>, n: Numeral) -> bool {
        &&& self.whole_from <= self.whole_to <= self.fraction_from <= self.fraction_to <= s.len()
        &&& self.exponent_from <= self.exponent_to <= s.len()
        &&& n.negative == self.negative
        &&& n.exponent_negative == self.exponent_negative
        &&& n.whole == s.subrange(self.whole_from as int, self.whole_to as int)
        &&& n.fraction == s.subrange(self.fraction_from as int, self.fraction_to as int)
        &&& n.exponent == s.subrange(self.exponent_from as int, self.exponent_to as int)
        &&& n.whole.len() + n.fraction.len() <= MAX_MANTISSA_DIGITS
        &&& n.exponent.len() <= MAX_EXPONENT_DIGITS
        &&& forall|i: int| self.whole_from <= i < self.whole_to ==> is_digit(#[trigger] s[i])
        &&& forall|i: int| self.fraction_from <= i < self.fraction_to ==> is_digit(#[trigger] s[i])
        &&& forall|i: int| self.exponent_from <= i < self.exponent_to ==> is_digit(#[trigger] s[i])
    }
}

/// Finds the parts of the numeral `v`, if it is one.
fn lay_out(v: &Vec<char>) -> (r: Option<Layout>)
    ensures
        r is Some <==> numeral_parts(v@) is Some,
        r matches Some(l) ==> l.marks(v@, numeral_parts(v@)->Some_0),
{
    let n = v.len();
    let a: usize = if n > 0 && v[0] == '-' { 1 } else { 0 };
    let b = skip_digits(v, a);
    let has_fraction = b < n && v[b] == '.';
    let c = if has_fraction { skip_digits(v, b + 1) } else { b };
    let has_exponent = c < n && (v[c] == 'e' || v[c] == 'E');
    let signed = has_exponent && c + 1 < n && (v[c + 1] == '-' || v[c + 1] == '+');
    let d: usize = if signed { c + 2 } else if has_exponent { c + 1 } else { c };
    let end = if has_exponent { skip_digits(v, d) } else { d };
    let fraction_from: usize = if has_fraction { b + 1 } else { b };
    if b > a && (!has_fraction || c > b + 1) && (!has_exponent || end > d) && end == n
        && (b - a) + (c - fraction_from) <= MAX_MANTISSA_DIGITS
        && end - d <= MAX_EXPONENT_DIGITS {
        proof {
            assert forall|i: int| a <= i < b implies is_digit(#[trigger] v@[i]) by {
                lemma_digit_run_digits(v@, a as int, i);
            }
            if has_fraction {
                assert forall|i: int| b + 1 <= i < c implies is_digit(#[trigger] v@[i]) by {
                    lemma_digit_run_digits(v@, b + 1, i);
                }
            } else {
                assert(v@.subrange(b as int, b as int) == Seq::<char>::empty());
            }
            if has_exponent {
                assert forall|i: int| d <= i < end implies is_digit(#[trigger] v@[i]) by {
                    lemma_digit_run_digits(v@, d as int, i);
                }
            }
        }
        Some(
            Layout {
                negative: a == 1,
                whole_from: a,
                whole_to: b,
                fraction_from,
                fraction_to: c,
                exponent_negative: signed && v[c + 1] == '-',
                exponent_from: d,
                exponent_to: end,
            },
        )
    } else {
        None
    }
}

/// Whether `m` times ten to the exponent `e`, less `places`, is at most 1.
fn scaled_fits(m: u128, e: u128, exponent_negative: bool, places: u128) -> (r: bool)
    requires
        1 <= m < pow10(32),
        e < 1000,
        places <= 32,
    ensures
        r == scaled_in_unit(
            m as nat,
            (if exponent_negative { -(e as int) } else { e as int }) - places,
        ),
{
    let ghost k: int = (if exponent_negative { -(e as int) } else { e as int }) - places;
    if !exponent_negative && e >= places {
        proof {
            assert(k == e - places);
            if k > 0 {
                lemma_pow10_monotonic(1, k as nat);
                reveal_with_fuel(pow10, 3);
                assert(m * pow10(k as nat) >= 10) by (nonlinear_arith)
                    requires
                        m >= 1,
                        pow10(k as nat) >= 10,
                ;
            } else {
                assert(pow10(0) == 1);
                assert(m * pow10(0) == m) by (nonlinear_arith)
                    requires
                        pow10(0) == 1,
                ;
            }
        }
        return e == places && m == 1;
    }
    let shift: u128 = if exponent_negative { places + e } else { places - e };
    proof {
        assert(k <= 0 && shift == -k);
        if k == 0 {
            assert(pow10(0) == 1);
            assert(m * pow10(0) == m) by (nonlinear_arith)
                requires
                    pow10(0) == 1,
            ;
        }
    }
    if shift > 32 {
        proof {
            lemma_pow10_monotonic(32, shift as nat);
        }
        return true;
    }
    m <= ten_to(shift as usize)
}

/// Whether `s` is a numeral for a number between 0 and 1.
pub fn is_unit_numeral(s: &str) -> (r: bool)
    ensures
        r == unit_numeral(s@),
{
    let v = chars_of(s);
    match lay_out(&v) {
        None => false,
        Some(l) => {
            let ghost parts = numeral_parts(v@)->Some_0;
            proof {
                assert(Seq::<char>::empty() + parts.whole == parts.whole);
                assert(Seq::<char>::empty() + parts.exponent == parts.exponent);
            }
            let whole = read_digits(&v, l.whole_from, l.whole_to, 0, Ghost(Seq::empty()));
            let m = read_digits(&v, l.fraction_from, l.fraction_to, whole, Ghost(parts.whole));
            if m == 0 {
                true
            } else if l.negative {
                false
            } else {
                let e = read_digits(&v, l.exponent_from, l.exponent_to, 0, Ghost(Seq::empty()));
                proof {
                    reveal_with_fuel(pow10, 5);
                    lemma_pow10_monotonic(parts.exponent.len(), 3);
                    lemma_pow10_monotonic(parts.whole.len() + parts.fraction.len(), 32);
                }
                scaled_fits(m, e, l.exponent_negative, (l.fraction_to - l.fraction_from) as u128)
            }
        },
    }
}

/// A confidence score, held as its decimal numeral.
#[derive(Debug)]
pub struct Confidence {
    pub numeral: String,
}

impl Confidence {
    /// Whether the score is a number between 0 and 1.
    pub open spec fn wf(&self) -> bool {
        unit_numeral(self.numeral@)
    }

    /// The score that `numeral` denotes, if it denotes a number between 0 and 1.
    pub fn parse(numeral: &str) -> (r: Option<Confidence>)
        ensures
            r is Some <==> unit_numeral(numeral@),
            r matches Some(c) ==> c.numeral@ == numeral@ && c.wf(),
    {
        if is_unit_numeral(numeral) {
            Some(Confidence { numeral: numeral.to_owned() })
        } else {
            None
        }
    }

    /// The score of an assessment that found nothing.
    pub fn zero() -> (r: Confidence)
        ensures
            r.numeral@ == "0.0"@,
            r.wf(),
    {
        proof {
            lemma_zero_is_unit();
        }
        Confidence { numeral: "0.0".to_owned() }
    }

    /// Whether the score is a number between 0 and 1.
    pub fn is_valid(&self) -> (r: bool)
        ensures
            r == self.wf(),
    {
        is_unit_numeral(self.numeral.as_str())
    }

    /// A copy of the score.
    pub fn duplicate(&self) -> (r: Confidence)
        ensures
            r.numeral@ == self.numeral@,
    {
        Confidence { numeral: self.numeral.clone() }
    }
}

/// `0.0` is a numeral for a number between 0 and 1.
pub proof fn lemma_zero_is_unit()
    ensures
        unit_numeral("0.0"@),
{
    reveal_strlit("0.0");
    let s = "0.0"@;
    assert(s.len() == 3 && s[0] == '0' && s[1] == '.' && s[2] == '0');
    reveal_with_fuel(digit_run, 3);
    assert(digit_run(s, 0) == 1);
    assert(digit_run(s, 2) == 1);
    let n = numeral_parts(s)->Some_0;
    assert(numeral_parts(s) is Some);
    assert(n.whole + n.fraction == seq!['0', '0']);
    reveal_with_fuel(digits_value, 3);
    assert(seq!['0', '0'].drop_last() == seq!['0']);
    assert(seq!['0'].drop_last() == Seq::<char>::empty());
    assert(digits_value(seq!['0', '0']) == 0);
}

} // verus!
