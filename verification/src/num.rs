//! Numeric tokens: unsigned decimal integers (parsing and printing, with a
//! round-trip law) and the syntactic shape of floating-point tokens. The
//! grid's measured values are carried as validated tokens; nothing here
//! computes with them.
use vstd::arithmetic::div_mod::lemma_fundamental_div_mod;
use vstd::arithmetic::div_mod::lemma_mod_division_less_than_divisor;
use vstd::prelude::*;

verus! {

/// True of the ASCII digit bytes.
pub open spec fn is_digit(b: u8) -> bool {
    0x30 <= b <= 0x39
}

/// Executable mirror of `is_digit`.
pub fn byte_is_digit(b: u8) -> (r: bool)
    ensures
        r == is_digit(b),
{
    0x30 <= b && b <= 0x39
}

pub open spec fn all_digits(s: Seq<u8>) -> bool {
    forall|i: int| 0 <= i < s.len() ==> is_digit(s[i])
}

/// The value of a digit string, most significant digit first.
pub open spec fn dec_val(s: Seq<u8>) -> int
    decreases s.len(),
{
    if s.len() == 0 {
        0
    } else {
        dec_val(s.drop_last()) * 10 + (s.last() - 0x30)
    }
}

/// The digit part of an unsigned-integer token (a leading '+' is allowed,
/// as Rust's unsigned parsers allow it).
pub open spec fn uint_digits(s: Seq<u8>) -> Seq<u8> {
    if s.len() > 0 && s[0] == 0x2b {
        s.skip(1)
    } else {
        s
    }
}

/// An unsigned-integer token: an optional leading '+', then only digits,
/// at least one.
pub open spec fn is_uint_token(s: Seq<u8>) -> bool {
    uint_digits(s).len() > 0 && all_digits(uint_digits(s))
}

/// The numeric value of an unsigned-integer token.
pub open spec fn uint_val(s: Seq<u8>) -> int {
    dec_val(uint_digits(s))
}

pub proof fn lemma_dec_val_nonneg(s: Seq<u8>)
    requires
        all_digits(s),
    ensures
        dec_val(s) >= 0,
    decreases s.len(),
{
    if s.len() > 0 {
        assert(all_digits(s.drop_last()));
        lemma_dec_val_nonneg(s.drop_last());
    }
}

/// Extending a digit string on the right cannot decrease its value.
pub proof fn lemma_dec_val_mono(s: Seq<u8>, k: int)
    requires
        all_digits(s),
        0 <= k <= s.len(),
    ensures
        dec_val(s) >= dec_val(s.take(k)),
        dec_val(s.take(k)) >= 0,
    decreases s.len() - k,
{
    assert(all_digits(s.take(k)));
    lemma_dec_val_nonneg(s.take(k));
    if k < s.len() {
        lemma_dec_val_mono(s, k + 1);
        assert(s.take(k + 1).drop_last() =~= s.take(k));
        assert(dec_val(s.take(k + 1)) == dec_val(s.take(k)) * 10 + (s[k] - 0x30));
        assert(dec_val(s.take(k)) * 10 >= dec_val(s.take(k))) by {
            lemma_dec_val_nonneg(s.take(k));
        }
    } else {
        assert(s.take(k) =~= s);
    }
}

/// Parses an unsigned-integer token into a `u64`; `None` when the token is
/// not of that shape or its value does not fit.
pub fn parse_u64(s: &Vec<u8>) -> (r: Option<u64>)
    ensures
        match r {
            Some(v) => is_uint_token(s@) && uint_val(s@) == v,
            None => !is_uint_token(s@) || uint_val(s@) > u64::MAX,
        },
{
    let start: usize = if s.len() > 0 && s[0] == 0x2b {
        1
    } else {
        0
    };
    let ghost d = uint_digits(s@);
    proof {
        assert(d =~= s@.skip(start as int));
    }
    if s.len() == start {
        return None;
    }
    let mut acc: u64 = 0;
    let mut i: usize = start;
    while i < s.len()
        invariant
            start <= i <= s.len(),
            start < s.len(),
            d == s@.skip(start as int),
            d == uint_digits(s@),
            all_digits(d.take(i - start)),
            acc == dec_val(d.take(i - start)),
        decreases s.len() - i,
    {
        let b = s[i];
        if !byte_is_digit(b) {
            proof {
                assert(d[i - start] == s@[i as int]);
                assert(!is_digit(d[i - start]));
                assert(!all_digits(d));
            }
            return None;
        }
        let dd: u64 = (b - 0x30) as u64;
        proof {
            assert(d.take(i + 1 - start).drop_last() =~= d.take(i - start));
            assert(d.take(i + 1 - start).last() == d[i - start]);
            assert(d[i - start] == s@[i as int]);
            assert(all_digits(d.take(i + 1 - start)));
        }
        if acc > (u64::MAX - dd) / 10 {
            proof {
                assert(dec_val(d.take(i + 1 - start)) == acc * 10 + dd);
                assert(acc * 10 + dd > u64::MAX) by (nonlinear_arith)
                    requires
                        acc > (u64::MAX - dd) / 10,
                        dd <= 9,
                        acc <= u64::MAX,
                ;
                if is_uint_token(s@) {
                    lemma_dec_val_mono(d, i + 1 - start);
                }
            }
            return None;
        }
        proof {
            assert(acc * 10 + dd <= u64::MAX) by (nonlinear_arith)
                requires
                    acc <= (u64::MAX - dd) / 10,
                    dd <= 9,
            ;
        }
        acc = acc * 10 + dd;
        i = i + 1;
    }
    proof {
        assert(d.take(s@.len() - start) =~= d);
    }
    Some(acc)
}

/// The decimal rendering of a nonnegative integer, no sign, no padding.
pub open spec fn dec_digits(n: int) -> Seq<u8>
    decreases n,
{
    if n < 10 {
        seq![(0x30 + if n >= 0 {
            n
        } else {
            0
        }) as u8]
    } else {
        dec_digits(n / 10).push((0x30 + n % 10) as u8)
    }
}

/// Printing then reading a number gives the number back.
pub proof fn lemma_dec_digits_val(n: int)
    requires
        n >= 0,
    ensures
        all_digits(dec_digits(n)),
        dec_digits(n).len() >= 1,
        dec_val(dec_digits(n)) == n,
    decreases n,
{
    if n < 10 {
        assert(dec_digits(n) =~= seq![(0x30 + n) as u8]);
        assert(dec_digits(n).drop_last() =~= Seq::<u8>::empty());
        assert(dec_val(Seq::<u8>::empty()) == 0);
        assert(dec_digits(n).last() == (0x30 + n) as u8);
        assert(dec_val(dec_digits(n)) == 0 * 10 + ((0x30 + n) as u8 - 0x30));
    } else {
        assert(1 <= n / 10 < n) by (nonlinear_arith)
            requires
                n >= 10,
        ;
        lemma_dec_digits_val(n / 10);
        lemma_fundamental_div_mod(n, 10);
        lemma_mod_division_less_than_divisor(n, 10);
        assert(dec_digits(n).drop_last() =~= dec_digits(n / 10));
        assert(dec_digits(n).last() == (0x30 + n % 10) as u8);
        assert((0x30 + n % 10) as u8 - 0x30 == n % 10);
        assert(dec_val(dec_digits(n)) == (n / 10) * 10 + n % 10);
    }
}

/// Renders `n` in decimal.
pub fn u64_to_dec(n: u64) -> (r: Vec<u8>)
    ensures
        r@ == dec_digits(n as int),
    decreases n,
{
    if n < 10 {
        let mut v: Vec<u8> = Vec::new();
        v.push(0x30 + (n as u8));
        proof {
            assert(v@ =~= dec_digits(n as int));
        }
        v
    } else {
        let mut v = u64_to_dec(n / 10);
        v.push(0x30 + ((n % 10) as u8));
        v
    }
}

/// A digit string never begins with '+', so a rendered number is itself a
/// valid unsigned-integer token with the same value.
pub proof fn lemma_dec_digits_uint_token(n: int)
    requires
        0 <= n,
    ensures
        is_uint_token(dec_digits(n)),
        uint_val(dec_digits(n)) == n,
{
    lemma_dec_digits_val(n);
    assert(is_digit(dec_digits(n)[0]));
    assert(uint_digits(dec_digits(n)) == dec_digits(n));
}

/// The value of an unsigned-integer token is never negative.
pub proof fn lemma_uint_val_nonneg(s: Seq<u8>)
    ensures
        is_uint_token(s) ==> uint_val(s) >= 0,
{
    if is_uint_token(s) {
        lemma_dec_val_nonneg(uint_digits(s));
    }
}

/// The token with a leading sign stripped, when one is there.
pub open spec fn strip_sign(s: Seq<u8>) -> Seq<u8> {
    if s.len() > 0 && (s[0] == 0x2b || s[0] == 0x2d) {
        s.skip(1)
    } else {
        s
    }
}

/// How many '.' bytes `s` holds.
pub open spec fn count_dots(s: Seq<u8>) -> int
    decreases s.len(),
{
    if s.len() == 0 {
        0
    } else {
        count_dots(s.drop_last()) + if s.last() == 0x2e {
            1int
        } else {
            0int
        }
    }
}

/// The mantissa of a float token: digits and at most one '.', with at
/// least one digit ("5.", ".5" and "5" qualify; "." and "" do not).
pub open spec fn is_mantissa(s: Seq<u8>) -> bool {
    &&& forall|i: int| 0 <= i < s.len() ==> (is_digit(s[i]) || s[i] == 0x2e)
    &&& exists|i: int| 0 <= i < s.len() && is_digit(s[i])
    &&& count_dots(s) <= 1
}

/// An exponent part: an optional sign, then one or more digits.
pub open spec fn is_exponent(s: Seq<u8>) -> bool {
    strip_sign(s).len() > 0 && all_digits(strip_sign(s))
}

/// Index of the first 'e' or 'E' in `s`, or `s.len()` when there is none.
pub open spec fn find_exp(s: Seq<u8>) -> int
    decreases s.len(),
{
    if s.len() == 0 {
        0
    } else if s[0] == 0x65 || s[0] == 0x45 {
        0
    } else {
        1 + find_exp(s.skip(1))
    }
}

pub proof fn lemma_find_exp_char(s: Seq<u8>, k: int)
    requires
        0 <= k <= s.len(),
        forall|j: int| 0 <= j < k ==> !(s[j] == 0x65 || s[j] == 0x45),
        k == s.len() || s[k] == 0x65 || s[k] == 0x45,
    ensures
        find_exp(s) == k,
    decreases k,
{
    if k > 0 {
        lemma_find_exp_char(s.skip(1), k - 1);
    }
}

/// An unsigned float body: a mantissa, optionally followed by 'e'/'E' and
/// an exponent. The split is at the first 'e'/'E'.
pub open spec fn is_float_body(s: Seq<u8>) -> bool {
    let i = find_exp(s);
    if i == s.len() {
        is_mantissa(s)
    } else {
        is_mantissa(s.take(i)) && is_exponent(s.skip(i + 1))
    }
}

/// The lowercased form of an ASCII byte.
pub open spec fn lower(b: u8) -> u8 {
    if 0x41 <= b <= 0x5a {
        (b + 0x20) as u8
    } else {
        b
    }
}

/// "inf" in bytes.
pub open spec fn lit_inf() -> Seq<u8> {
    seq![0x69u8, 0x6eu8, 0x66u8]
}

/// "infinity" in bytes.
pub open spec fn lit_infinity() -> Seq<u8> {
    seq![0x69u8, 0x6eu8, 0x66u8, 0x69u8, 0x6eu8, 0x69u8, 0x74u8, 0x79u8]
}

/// "nan" in bytes.
pub open spec fn lit_nan() -> Seq<u8> {
    seq![0x6eu8, 0x61u8, 0x6eu8]
}

/// One of the case-insensitive non-finite spellings.
pub open spec fn is_inf_nan(s: Seq<u8>) -> bool {
    let l = Seq::new(s.len(), |i: int| lower(s[i]));
    l == lit_inf() || l == lit_infinity() || l == lit_nan()
}

/// A token Rust's float parser accepts: an optional sign, then either a
/// non-finite spelling or a float body.
pub open spec fn is_float_token(s: Seq<u8>) -> bool {
    is_inf_nan(strip_sign(s)) || is_float_body(strip_sign(s))
}

/// A float token spelled as a finite number (the non-finite spellings are
/// excluded; temperatures and times must be finite).
pub open spec fn is_finite_float_token(s: Seq<u8>) -> bool {
    is_float_body(strip_sign(s))
}

fn check_mantissa(s: &Vec<u8>, a: usize, b: usize) -> (r: bool)
    requires
        a <= b <= s.len(),
    ensures
        r == is_mantissa(s@.subrange(a as int, b as int)),
{
    let ghost m = s@.subrange(a as int, b as int);
    let mut i: usize = a;
    let mut dots: usize = 0;
    let mut seen_digit = false;
    while i < b
        invariant
            a <= i <= b <= s.len(),
            m == s@.subrange(a as int, b as int),
            forall|j: int| 0 <= j < i - a ==> (is_digit(m[j]) || m[j] == 0x2e),
            seen_digit == exists|j: int| 0 <= j < i - a && is_digit(m[j]),
            dots <= i - a,
            dots == count_dots(m.take(i - a)),
        decreases b - i,
    {
        let c = s[i];
        proof {
            assert(m[i - a] == s@[i as int]);
            assert(m.take(i + 1 - a).drop_last() =~= m.take(i - a));
            assert(m.take(i + 1 - a).last() == m[i - a]);
        }
        if byte_is_digit(c) {
            seen_digit = true;
        } else if c == 0x2e {
            dots = dots + 1;
        } else {
            proof {
                assert(!(is_digit(m[i - a]) || m[i - a] == 0x2e));
            }
            return false;
        }
        i = i + 1;
    }
    proof {
        assert(m.take(b - a) =~= m);
    }
    seen_digit && dots <= 1
}

fn check_exponent(s: &Vec<u8>, a: usize) -> (r: bool)
    requires
        a <= s.len(),
    ensures
        r == is_exponent(s@.skip(a as int)),
{
    let ghost e = s@.skip(a as int);
    let start: usize = if a < s.len() && (s[a] == 0x2b || s[a] == 0x2d) {
        a + 1
    } else {
        a
    };
    let ghost d = strip_sign(e);
    proof {
        assert(d =~= s@.skip(start as int));
    }
    if start == s.len() {
        return false;
    }
    let mut i: usize = start;
    while i < s.len()
        invariant
            a <= start <= i <= s.len(),
            d == s@.skip(start as int),
            d == strip_sign(s@.skip(a as int)),
            forall|j: int| 0 <= j < i - start ==> is_digit(d[j]),
        decreases s.len() - i,
    {
        if !byte_is_digit(s[i]) {
            proof {
                assert(d[i - start] == s@[i as int]);
                assert(!is_digit(d[i - start]));
                assert(!all_digits(d));
            }
            return false;
        }
        i = i + 1;
    }
    true
}

/// Decides whether `s` is a float token spelled as a finite number.
pub fn check_finite_float_token(s: &Vec<u8>) -> (r: bool)
    ensures
        r == is_finite_float_token(s@),
{
    let a: usize = if s.len() > 0 && (s[0] == 0x2b || s[0] == 0x2d) {
        1
    } else {
        0
    };
    let ghost b = strip_sign(s@);
    proof {
        assert(b =~= s@.skip(a as int));
    }
    // find the first 'e' or 'E' after the sign
    let mut i: usize = a;
    while i < s.len() && s[i] != 0x65 && s[i] != 0x45
        invariant
            a <= i <= s.len(),
            forall|j: int| 0 <= j < i - a ==> !(b[j] == 0x65 || b[j] == 0x45),
            b == s@.skip(a as int),
        decreases s.len() - i,
    {
        i = i + 1;
    }
    proof {
        lemma_find_exp_char(b, i - a);
        assert(b.take(i - a) =~= s@.subrange(a as int, i as int));
    }
    if i == s.len() {
        proof {
            assert(b =~= s@.subrange(a as int, i as int));
        }
        check_mantissa(s, a, i)
    } else {
        proof {
            assert(b.skip(i + 1 - a) =~= s@.skip(i + 1));
        }
        let m = check_mantissa(s, a, i);
        if m {
            check_exponent(s, i + 1)
        } else {
            false
        }
    }
}

/// Lowercases the ASCII letters of `s`.
fn to_lower_bytes(s: &Vec<u8>) -> (r: Vec<u8>)
    ensures
        r@ == Seq::new(s@.len(), |i: int| lower(s@[i])),
{
    let mut r: Vec<u8> = Vec::new();
    let mut i: usize = 0;
    while i < s.len()
        invariant
            0 <= i <= s.len(),
            r@ =~= Seq::new(i as nat, |j: int| lower(s@[j])),
        decreases s.len() - i,
    {
        let c = s[i];
        if 0x41 <= c && c <= 0x5a {
            r.push(c + 0x20);
        } else {
            r.push(c);
        }
        proof {
            assert(r@ =~= Seq::new((i + 1) as nat, |j: int| lower(s@[j])));
        }
        i = i + 1;
    }
    proof {
        assert(r@ =~= Seq::new(s@.len(), |j: int| lower(s@[j])));
    }
    r
}

/// Decides whether `s` is a float token, the non-finite spellings included.
pub fn check_float_token(s: &Vec<u8>) -> (r: bool)
    ensures
        r == is_float_token(s@),
{
    if check_finite_float_token(s) {
        return true;
    }
    let a: usize = if s.len() > 0 && (s[0] == 0x2b || s[0] == 0x2d) {
        1
    } else {
        0
    };
    let ghost b = strip_sign(s@);
    proof {
        assert(b =~= s@.skip(a as int));
    }
    let rest = crate::bytes::copy_range(s, a, s.len());
    let low = to_lower_bytes(&rest);
    proof {
        assert(low@ =~= Seq::new(b.len(), |i: int| lower(b[i])));
    }
    let mut inf: Vec<u8> = Vec::new();
    inf.push(0x69);
    inf.push(0x6e);
    inf.push(0x66);
    proof {
        assert(inf@ =~= lit_inf());
    }
    if crate::bytes::bytes_eq(&low, &inf) {
        return true;
    }
    let mut infinity: Vec<u8> = Vec::new();
    infinity.push(0x69);
    infinity.push(0x6e);
    infinity.push(0x66);
    infinity.push(0x69);
    infinity.push(0x6e);
    infinity.push(0x69);
    infinity.push(0x74);
    infinity.push(0x79);
    proof {
        assert(infinity@ =~= lit_infinity());
    }
    if crate::bytes::bytes_eq(&low, &infinity) {
        return true;
    }
    let mut nan: Vec<u8> = Vec::new();
    nan.push(0x6e);
    nan.push(0x61);
    nan.push(0x6e);
    proof {
        assert(nan@ =~= lit_nan());
    }
    crate::bytes::bytes_eq(&low, &nan)
}

} // verus!
