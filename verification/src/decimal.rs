//! Decimal rendering and reading of integers, as `format!` renders them.
use vstd::prelude::*;

verus! {

/// The ASCII digit for `n` in `0..=9`.
pub open spec fn digit_char(n: int) -> char {
    (n + 48) as char
}

pub open spec fn is_digit(c: char) -> bool {
    '0' <= c <= '9'
}

/// The value of an ASCII digit.
pub open spec fn digit_value(c: char) -> int {
    c as int - 48
}

/// The shortest decimal rendering of `n` (what `{}` prints for a non-negative integer).
pub open spec fn decimal(n: nat) -> Seq<char>
    decreases n,
{
    if n < 10 {
        seq![digit_char(n as int)]
    } else {
        decimal(n / 10).push(digit_char((n % 10) as int))
    }
}

/// `k` zeros (none when `k <= 0`).
pub open spec fn zeros(k: int) -> Seq<char> {
    Seq::new(if k > 0 { k as nat } else { 0 }, |i: int| '0')
}

/// What `format!("{:0w$}", n)` renders for an integer `n`: the sign first, then
/// zeros, then the digits, at least `w` characters in all.
pub open spec fn fmt_padded(n: int, w: int) -> Seq<char> {
    if n < 0 {
        let ds = decimal((-n) as nat);
        seq!['-'] + zeros(w - 1 - ds.len()) + ds
    } else {
        let ds = decimal(n as nat);
        zeros(w - ds.len()) + ds
    }
}

/// What `format!("{}", n)` renders for an integer `n`.
pub open spec fn fmt_int(n: int) -> Seq<char> {
    fmt_padded(n, 0)
}

/// The value of a run of decimal digits (most significant first).
pub open spec fn digits_value(s: Seq<char>) -> int
    decreases s.len(),
{
    if s.len() == 0 {
        0
    } else {
        digits_value(s.drop_last()) * 10 + digit_value(s.last())
    }
}

pub open spec fn all_digits(s: Seq<char>) -> bool {
    forall|i: int| 0 <= i < s.len() ==> is_digit(#[trigger] s[i])
}

// ---------------------------------------------------------------------------
// Writing into a String
// ---------------------------------------------------------------------------

/// Appends one character (`String::push`).
#[verifier::external_body]
pub fn push_char(s: &mut String, c: char)
    ensures
        final(s)@ == old(s)@.push(c),
{
    s.push(c);
}

/// The digit character for `d` in `0..=9`.
pub fn digit_to_char(d: u64) -> (c: char)
    requires
        d <= 9,
    ensures
        c == digit_char(d as int),
{
    ((d as u8) + 48u8) as char
}

/// Appends `format!("{:0w$}", n)` for a non-negative `n`.
pub fn push_decimal(s: &mut String, n: u64, w: usize)
    ensures
        final(s)@ == old(s)@ + zeros(w - decimal(n as nat).len()) + decimal(n as nat),
{
    // Digits, least significant first.
    let mut digits: Vec<char> = Vec::new();
    let mut q: u64 = n;
    loop
        invariant_except_break
            decimal(n as nat) == decimal(q as nat) + Seq::new(
                digits@.len(),
                |i: int| digits@[digits@.len() - 1 - i],
            ),
        ensures
            decimal(n as nat) == Seq::new(digits@.len(), |i: int| digits@[digits@.len() - 1 - i]),
        decreases q,
    {
        let ghost old_digits = digits@;
        let ghost old_q = q;
        let c = digit_to_char(q % 10);
        digits.push(c);
        if q < 10 {
            assert(decimal(n as nat) =~= Seq::new(
                digits@.len(),
                |i: int| digits@[digits@.len() - 1 - i],
            ));
            break ;
        }
        q = q / 10;
        proof {
            assert(decimal(old_q as nat) == decimal(q as nat).push(c));
            assert(decimal(n as nat) =~= decimal(q as nat) + Seq::new(
                digits@.len(),
                |i: int| digits@[digits@.len() - 1 - i],
            ));
        }
    }
    let len = digits.len();
    let ghost before = s@;
    let mut k: usize = len;
    while k < w
        invariant
            len == digits@.len(),
            len <= k,
            k <= w || k == len,
            s@ == before + zeros(k - len),
        decreases w - k,
    {
        push_char(s, '0');
        assert(s@ =~= before + zeros(k + 1 - len));
        k = k + 1;
    }
    assert(s@ =~= before + zeros(w - len));
    let ghost padded = s@;
    let mut j: usize = 0;
    while j < len
        invariant
            len == digits@.len(),
            j <= len,
            s@ == padded + decimal(n as nat).subrange(0, j as int),
            decimal(n as nat) == Seq::new(len as nat, |i: int| digits@[len - 1 - i]),
        decreases len - j,
    {
        push_char(s, digits[len - 1 - j]);
        assert(decimal(n as nat).subrange(0, j + 1) =~= decimal(n as nat).subrange(
            0,
            j as int,
        ).push(digits@[len - 1 - j]));
        j = j + 1;
    }
    assert(decimal(n as nat).subrange(0, len as int) =~= decimal(n as nat));
}


/// Appends `format!("{:0w$}", n)`.
pub fn push_padded(s: &mut String, n: i64, w: usize)
    ensures
        final(s)@ == old(s)@ + fmt_padded(n as int, w as int),
{
    if n < 0 {
        let mag: u64 = if n == i64::MIN {
            9_223_372_036_854_775_808u64
        } else {
            (-n) as u64
        };
        let ghost before = s@;
        push_char(s, '-');
        let w1: usize = if w > 0 { w - 1 } else { 0 };
        push_decimal(s, mag, w1);
        assert(zeros(w1 - decimal(mag as nat).len()) =~= zeros(w - 1 - decimal(mag as nat).len()));
        assert(s@ =~= before + fmt_padded(n as int, w as int));
    } else {
        push_decimal(s, n as u64, w);
    }
}

/// Appends `format!("{}", n)`.
pub fn push_int(s: &mut String, n: i64)
    ensures
        final(s)@ == old(s)@ + fmt_int(n as int),
{
    push_padded(s, n, 0);
}

// ---------------------------------------------------------------------------
// Fixed-width fields
// ---------------------------------------------------------------------------

/// Ten to the `k`.
pub open spec fn pow10(k: int) -> int
    decreases k,
{
    if k <= 0 { 1 } else { 10 * pow10(k - 1) }
}

/// The `w` least significant decimal digits of `n`, most significant first.
pub open spec fn fixed_digits(n: int, w: int) -> Seq<char> {
    Seq::new(w as nat, |i: int| digit_char((n / pow10(w - 1 - i)) % 10))
}

pub proof fn lemma_pow10_small()
    ensures
        pow10(0) == 1,
        pow10(1) == 10,
        pow10(2) == 100,
        pow10(3) == 1000,
        pow10(4) == 10000,
{
    reveal_with_fuel(pow10, 5);
}

proof fn lemma_decimal_small(n: int)
    requires
        0 <= n < 10000,
    ensures
        n < 10 ==> decimal(n as nat) =~= seq![digit_char(n)],
        10 <= n < 100 ==> decimal(n as nat) =~= seq![digit_char(n / 10), digit_char(n % 10)],
        100 <= n < 1000 ==> decimal(n as nat) =~= seq![
            digit_char(n / 100),
            digit_char((n / 10) % 10),
            digit_char(n % 10),
        ],
        1000 <= n ==> decimal(n as nat) =~= seq![
            digit_char(n / 1000),
            digit_char((n / 100) % 10),
            digit_char((n / 10) % 10),
            digit_char(n % 10),
        ],
{
    reveal_with_fuel(decimal, 5);
    if n >= 10 {
        assert((n / 10) / 10 == n / 100);
        assert((n / 100) / 10 == n / 1000);
        assert((n / 10) % 10 == (n / 10) % 10);
    }
}

/// A non-negative value below `10^w` renders, under `{:0w$}`, as exactly its
/// `w` digits (`1 <= w <= 4`).
pub proof fn lemma_fmt_padded_fixed(n: int, w: int)
    requires
        1 <= w <= 4,
        0 <= n < pow10(w),
    ensures
        fmt_padded(n, w) == fixed_digits(n, w),
{
    lemma_pow10_small();
    lemma_decimal_small(n);
    let ds = decimal(n as nat);
    assert(fmt_padded(n, w) == zeros(w - ds.len()) + ds);
    assert(fmt_padded(n, w) =~= fixed_digits(n, w));
}

proof fn lemma_digits_value_small(s: Seq<char>)
    requires
        1 <= s.len() <= 4,
    ensures
        s.len() == 1 ==> digits_value(s) == digit_value(s[0]),
        s.len() == 2 ==> digits_value(s) == 10 * digit_value(s[0]) + digit_value(s[1]),
        s.len() == 3 ==> digits_value(s) == 100 * digit_value(s[0]) + 10 * digit_value(s[1])
            + digit_value(s[2]),
        s.len() == 4 ==> digits_value(s) == 1000 * digit_value(s[0]) + 100 * digit_value(s[1])
            + 10 * digit_value(s[2]) + digit_value(s[3]),
{
    reveal_with_fuel(digits_value, 5);
    let s1 = s.drop_last();
    if s.len() >= 2 {
        let s2 = s1.drop_last();
        if s.len() >= 3 {
            let s3 = s2.drop_last();
            if s.len() >= 4 {
                let s4 = s3.drop_last();
                assert(s4.len() == 0);
            }
        }
    }
}

/// The `w` digits of a value below `10^w` read back as that value.
pub proof fn lemma_fixed_digits_value(n: int, w: int)
    requires
        1 <= w <= 4,
        0 <= n < pow10(w),
    ensures
        fixed_digits(n, w).len() == w,
        all_digits(fixed_digits(n, w)),
        digits_value(fixed_digits(n, w)) == n,
{
    lemma_pow10_small();
    let f = fixed_digits(n, w);
    assert forall|i: int| 0 <= i < f.len() implies is_digit(#[trigger] f[i]) by {
        let k = (n / pow10(w - 1 - i)) % 10;
        assert(0 <= k <= 9);
    }
    lemma_digits_value_small(f);
    if w == 1 {
        assert(digit_value(f[0]) == n);
    } else if w == 2 {
        assert(digit_value(f[0]) == n / 10);
        assert(digit_value(f[1]) == n % 10);
    } else if w == 3 {
        assert(digit_value(f[0]) == n / 100);
        assert(digit_value(f[1]) == (n / 10) % 10);
        assert(digit_value(f[2]) == n % 10);
    } else {
        assert(digit_value(f[0]) == n / 1000);
        assert(digit_value(f[1]) == (n / 100) % 10);
        assert(digit_value(f[2]) == (n / 10) % 10);
        assert(digit_value(f[3]) == n % 10);
    }
}

/// `q * k + r` with `0 <= r < k` divides back into `q` and `r`.
proof fn lemma_div_parts(q: int, k: int, r: int)
    requires
        k > 0,
        0 <= r < k,
    ensures
        (q * k + r) / k == q,
        (q * k + r) % k == r,
{
    vstd::arithmetic::div_mod::lemma_fundamental_div_mod_converse(q * k + r, k, q, r);
}

proof fn lemma_four_digits(a: int, b: int, c: int, d: int)
    requires
        0 <= a <= 9,
        0 <= b <= 9,
        0 <= c <= 9,
        0 <= d <= 9,
    ensures
        (1000 * a + 100 * b + 10 * c + d) / 1000 == a,
        ((1000 * a + 100 * b + 10 * c + d) / 100) % 10 == b,
        ((1000 * a + 100 * b + 10 * c + d) / 10) % 10 == c,
        (1000 * a + 100 * b + 10 * c + d) % 10 == d,
{
    let v = 1000 * a + 100 * b + 10 * c + d;
    lemma_div_parts(a, 1000, 100 * b + 10 * c + d);
    lemma_div_parts(10 * a + b, 100, 10 * c + d);
    lemma_div_parts(a, 10, b);
    lemma_div_parts(100 * a + 10 * b + c, 10, d);
    lemma_div_parts(10 * a + b, 10, c);
    assert(v == a * 1000 + (100 * b + 10 * c + d));
    assert(v == (10 * a + b) * 100 + (10 * c + d));
    assert(v == (100 * a + 10 * b + c) * 10 + d);
    assert(100 * a + 10 * b + c == (10 * a + b) * 10 + c);
    assert(10 * a + b == a * 10 + b);
}

proof fn lemma_digit_char_value(c: char)
    requires
        is_digit(c),
    ensures
        0 <= digit_value(c) <= 9,
        digit_char(digit_value(c)) == c,
{
}

/// A run of `w` digits is the fixed-width rendering of its own value.
pub proof fn lemma_digits_fixed(s: Seq<char>)
    requires
        1 <= s.len() <= 4,
        all_digits(s),
    ensures
        0 <= digits_value(s) < pow10(s.len() as int),
        fixed_digits(digits_value(s), s.len() as int) == s,
{
    lemma_pow10_small();
    lemma_digits_value_small(s);
    let v = digits_value(s);
    let w = s.len() as int;
    let f = fixed_digits(v, w);
    assert(is_digit(s[0]));
    lemma_digit_char_value(s[0]);
    if w == 1 {
        lemma_four_digits(0, 0, 0, digit_value(s[0]));
    } else {
        assert(is_digit(s[1]));
        lemma_digit_char_value(s[1]);
        if w == 2 {
            lemma_four_digits(0, 0, digit_value(s[0]), digit_value(s[1]));
        } else {
            assert(is_digit(s[2]));
            lemma_digit_char_value(s[2]);
            if w == 3 {
                lemma_four_digits(0, digit_value(s[0]), digit_value(s[1]), digit_value(s[2]));
            } else {
                assert(is_digit(s[3]));
                lemma_digit_char_value(s[3]);
                lemma_four_digits(
                    digit_value(s[0]),
                    digit_value(s[1]),
                    digit_value(s[2]),
                    digit_value(s[3]),
                );
            }
        }
    }
    assert(f =~= s);
}

} // verus!
