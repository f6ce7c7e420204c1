use vstd::prelude::*;
use crate::text::push_char;

verus! {

/// The ASCII digit for `d` (0..=9).
pub open spec fn digit_char(d: nat) -> char {
    ((d + '0' as nat) as u32) as char
}

pub open spec fn is_digit(c: char) -> bool {
    '0' <= c && c <= '9'
}

pub open spec fn digit_value(c: char) -> nat {
    (c as nat - '0' as nat) as nat
}

/// Decimal digits of `n`, most significant first, without leading zeros.
pub open spec fn digits_of(n: nat) -> Seq<char>
    decreases n,
{
    if n < 10 {
        seq![digit_char(n)]
    } else {
        digits_of(n / 10).push(digit_char(n % 10))
    }
}

/// The canonical decimal text of `x`: a leading `-` for negatives.
pub open spec fn decimal(x: int) -> Seq<char> {
    if x < 0 {
        seq!['-'] + digits_of((-x) as nat)
    } else {
        digits_of(x as nat)
    }
}

/// The value of a run of digits.
pub open spec fn digits_value(ds: Seq<char>) -> nat
    decreases ds.len(),
{
    if ds.len() == 0 {
        0
    } else {
        digits_value(ds.drop_last()) * 10 + digit_value(ds.last())
    }
}

pub open spec fn all_digits(ds: Seq<char>) -> bool {
    forall|i: int| 0 <= i < ds.len() ==> is_digit(#[trigger] ds[i])
}

/// A non-empty digit run with no superfluous leading zero.
pub open spec fn canonical_digits(ds: Seq<char>) -> bool {
    ds.len() > 0 && all_digits(ds) && (ds[0] == '0' ==> ds.len() == 1)
}

/// What `parse_i64` accepts: canonical decimal text of an `i64`.
pub open spec fn decimal_i64(d: Seq<char>) -> Option<i64> {
    if d.len() > 0 && d[0] == '-' {
        let ds = d.drop_first();
        if canonical_digits(ds) && ds[0] != '0' && digits_value(ds) <= 0x8000_0000_0000_0000 {
            Some((-digits_value(ds)) as i64)
        } else {
            None
        }
    } else if canonical_digits(d) && digits_value(d) <= 0x7fff_ffff_ffff_ffff {
        Some(digits_value(d) as i64)
    } else {
        None
    }
}

pub(crate) proof fn lemma_digits_of(n: nat)
    ensures
        canonical_digits(digits_of(n)),
        digits_value(digits_of(n)) == n,
        digits_of(n)[0] == '0' <==> n == 0,
    decreases n,
{
    let k = n % 10;
    assert(digit_value(digit_char(k)) == k);
    assert(is_digit(digit_char(k)));
    if n >= 10 {
        lemma_digits_of(n / 10);
        vstd::arithmetic::div_mod::lemma_fundamental_div_mod(n as int, 10);
        let ds = digits_of(n);
        assert(ds.drop_last() == digits_of(n / 10));
        assert(ds.last() == digit_char(k));
        assert(digits_value(ds) == digits_value(digits_of(n / 10)) * 10 + k);
        assert(ds[0] == digits_of(n / 10)[0]);
        assert forall|i: int| 0 <= i < ds.len() implies is_digit(#[trigger] ds[i]) by {
            if i < ds.len() - 1 {
                assert(ds[i] == digits_of(n / 10)[i]);
            }
        }
    } else {
        let ds = digits_of(n);
        assert(ds.drop_last() == Seq::<char>::empty());
        assert(digits_value(ds) == digits_value(Seq::<char>::empty()) * 10 + digit_value(ds.last()));
    }
}

proof fn lemma_digits_value_prefix(ds: Seq<char>, k: int)
    requires
        0 <= k <= ds.len(),
    ensures
        digits_value(ds.take(k)) <= digits_value(ds),
    decreases ds.len(),
{
    if k < ds.len() {
        assert(ds.drop_last().take(k) == ds.take(k));
        lemma_digits_value_prefix(ds.drop_last(), k);
    } else {
        assert(ds.take(k) == ds);
    }
}

/// The canonical text of an `i64` reads back as the same value.
pub proof fn lemma_decimal_round_trip(x: i64)
    ensures
        decimal_i64(decimal(x as int)) == Some(x),
{
    if x < 0 {
        let n = (-x) as nat;
        lemma_digits_of(n);
        let d = decimal(x as int);
        assert(d.drop_first() == digits_of(n));
    } else {
        lemma_digits_of(x as nat);
    }
}

proof fn lemma_canonical_digits_read_back(ds: Seq<char>)
    requires
        canonical_digits(ds),
    ensures
        digits_of(digits_value(ds)) == ds,
        ds[0] != '0' ==> digits_value(ds) >= 1,
    decreases ds.len(),
{
    let d = ds.last();
    assert(is_digit(d));
    assert(digit_char(digit_value(d)) == d);
    if ds.len() == 1 {
        assert(ds.drop_last() == Seq::<char>::empty());
        assert(digits_value(ds) == digit_value(d));
        assert(digits_of(digit_value(d)) =~= ds);
    } else {
        let init = ds.drop_last();
        assert(init[0] == ds[0]);
        assert forall|i: int| 0 <= i < init.len() implies is_digit(#[trigger] init[i]) by {
            assert(init[i] == ds[i]);
        }
        lemma_canonical_digits_read_back(init);
        let v = digits_value(init);
        let n = digits_value(ds);
        assert(n == v * 10 + digit_value(d));
        assert(n / 10 == v && n % 10 == digit_value(d)) by {
            vstd::arithmetic::div_mod::lemma_fundamental_div_mod_converse(
                n as int,
                10,
                v as int,
                digit_value(d) as int,
            );
        }
        assert(digits_of(n) == digits_of(v).push(digit_char(digit_value(d))));
        assert(ds == init.push(d));
    }
}

/// Text that `parse_i64` accepts is the canonical text of the value it gives.
pub proof fn lemma_decimal_canonical(d: Seq<char>)
    requires
        decimal_i64(d) is Some,
    ensures
        decimal(decimal_i64(d)->0 as int) == d,
{
    if d.len() > 0 && d[0] == '-' {
        let ds = d.drop_first();
        lemma_canonical_digits_read_back(ds);
        assert(d == seq!['-'] + ds);
    } else {
        lemma_canonical_digits_read_back(d);
    }
}

/// Appends the digits of `n` to `out`.
fn push_digits(out: &mut String, n: u64)
    ensures
        final(out)@ == old(out)@ + digits_of(n as nat),
    decreases n,
{
    if n >= 10 {
        push_digits(out, n / 10);
    }
    let d: u8 = (n % 10) as u8;
    let c = (d + 48u8) as char;
    assert(c == digit_char((n % 10) as nat));
    push_char(out, c);
    proof {
        if n < 10 {
            assert(n % 10 == n);
        }
    }
}

/// Appends the canonical decimal text of `x` to `out`.
pub fn push_decimal(out: &mut String, x: i64)
    ensures
        final(out)@ == old(out)@ + decimal(x as int),
{
    if x < 0 {
        push_char(out, '-');
        let magnitude: u64 = ((-(x + 1)) as u64) + 1;
        push_digits(out, magnitude);
        assert(final(out)@ == old(out)@ + decimal(x as int));
    } else {
        push_digits(out, x as u64);
    }
}

/// Reads canonical decimal text of an `i64`; anything else is refused.
#[verifier::loop_isolation(false)]
pub fn parse_i64(d: &[char]) -> (r: Option<i64>)
    ensures
        r == decimal_i64(d@),
{
    let neg = d.len() > 0 && d[0] == '-';
    let start: usize = if neg { 1 } else { 0 };
    let ghost ds = d@.skip(start as int);
    proof {
        if neg {
            assert(ds == d@.drop_first());
        } else {
            assert(ds == d@);
        }
    }
    if start >= d.len() {
        return None;
    }
    if d[start] == '0' && (neg || d.len() > start + 1) {
        return None;
    }
    let limit: u64 = if neg { 0x8000_0000_0000_0000 } else { 0x7fff_ffff_ffff_ffff };
    let mut acc: u64 = 0;
    let mut i: usize = start;
    while i < d.len()
        invariant
            start <= i <= d.len(),
            ds == d@.skip(start as int),
            acc as nat == digits_value(ds.take(i - start)),
            acc <= limit,
            all_digits(ds.take(i - start)),
        decreases d.len() - i,
    {
        let c = d[i];
        assert(ds.take(i - start + 1).drop_last() == ds.take(i - start));
        if !('0' <= c && c <= '9') {
            proof {
                assert(ds[i - start] == c);
                assert(!is_digit(ds[i - start]));
            }
            return None;
        }
        let v: u64 = (c as u32 - 48) as u64;
        assert(v <= 9);
        assert(v == digit_value(ds[i - start]));
        assert(ds.take(i - start + 1).last() == ds[i - start]);
        if acc > (limit - v) / 10 {
            proof {
                assert(acc * 10 + v > limit) by (nonlinear_arith)
                    requires
                        acc > (limit - v) / 10,
                        v <= 9,
                        limit >= 9,
                ;
                lemma_digits_value_prefix(ds, i - start + 1);
            }
            return None;
        }
        assert(acc * 10 + v <= limit) by (nonlinear_arith)
            requires
                acc <= (limit - v) / 10,
                v <= 9,
                limit >= 9,
        ;
        acc = acc * 10 + v;
        i = i + 1;
        proof {
            assert forall|j: int| 0 <= j < ds.take(i - start).len() implies is_digit(
                #[trigger] ds.take(i - start)[j],
            ) by {
                if j < i - start - 1 {
                    assert(ds.take(i - start)[j] == ds.take(i - start - 1)[j]);
                }
            }
        }
    }
    assert(ds.take(d.len() - start) == ds);
    if neg {
        assert(ds == d@.drop_first());
        Some(-(acc as i128) as i64)
    } else {
        assert(ds == d@);
        Some(acc as i64)
    }
}

} // verus!
