//! Numeric interpretation of version components: a dot-separated component
//! counts as the number its decimal digits denote, and as zero when it is
//! not purely numeric. Comparison never materialises the numbers (they can
//! be arbitrarily long), it strips leading zeros and compares length, then
//! digits, which is proved equal to comparing the denoted values.
use vstd::prelude::*;
use vstd::string::StrSliceExecFns;

verus! {

/// A decimal digit character.
pub open spec fn is_digit(c: char) -> bool {
    48 <= c as u32 <= 57
}

/// Non-empty and made of digits only.
pub open spec fn all_digits(s: Seq<char>) -> bool {
    s.len() > 0 && forall|i: int| 0 <= i < s.len() ==> is_digit(#[trigger] s[i])
}

/// The numeric value of one digit character.
pub open spec fn digit_val(c: char) -> int {
    c as u32 - 48
}

/// The number denoted by a digit sequence, most significant first.
pub open spec fn digits_val(s: Seq<char>) -> int
    decreases s.len(),
{
    if s.len() == 0 {
        0
    } else {
        digits_val(s.drop_last()) * 10 + digit_val(s.last())
    }
}

/// The numeric value of a version component: its denoted number when it is
/// purely numeric, zero otherwise.
pub open spec fn comp_val(s: Seq<char>) -> int {
    if all_digits(s) {
        digits_val(s)
    } else {
        0
    }
}

/// Ten to the `n`.
pub open spec fn pow10(n: nat) -> int
    decreases n,
{
    if n == 0 {
        1
    } else {
        10 * pow10((n - 1) as nat)
    }
}

/// Distinct characters have distinct scalar values.
proof fn lemma_char_cast_injective(a: char, b: char)
    requires
        a as u32 == b as u32,
    ensures
        a == b,
{
    vstd::utf8::char_u32_cast(a, a as u32);
    vstd::utf8::char_u32_cast(b, b as u32);
}

/// A digit other than `'0'` has value at least one.
proof fn lemma_nonzero_digit(c: char)
    requires
        is_digit(c),
        c != '0',
    ensures
        1 <= digit_val(c) <= 9,
{
    if c as u32 == 48 {
        assert('0' as u32 == 48);
        lemma_char_cast_injective(c, '0');
    }
}

pub proof fn lemma_pow10_pos(n: nat)
    ensures
        pow10(n) >= 1,
    decreases n,
{
    if n > 0 {
        lemma_pow10_pos((n - 1) as nat);
    }
}

pub proof fn lemma_pow10_mono(m: nat, n: nat)
    requires
        m <= n,
    ensures
        pow10(m) <= pow10(n),
    decreases n,
{
    if m < n {
        lemma_pow10_mono(m, (n - 1) as nat);
        lemma_pow10_pos((n - 1) as nat);
    }
}

/// Digit sequences denote values in `[0, 10^len)`.
pub proof fn lemma_digits_val_bounds(s: Seq<char>)
    requires
        forall|i: int| 0 <= i < s.len() ==> is_digit(#[trigger] s[i]),
    ensures
        0 <= digits_val(s) < pow10(s.len()),
    decreases s.len(),
{
    if s.len() > 0 {
        assert forall|i: int| 0 <= i < s.drop_last().len() implies is_digit(
            #[trigger] s.drop_last()[i],
        ) by {
            assert(s.drop_last()[i] == s[i]);
        }
        lemma_digits_val_bounds(s.drop_last());
        assert(is_digit(s.last()));
        assert(0 <= digit_val(s.last()) <= 9);
        let v = digits_val(s.drop_last());
        let p = pow10(s.drop_last().len());
        assert(digits_val(s) == v * 10 + digit_val(s.last()));
        assert(v * 10 + 9 < p * 10) by (nonlinear_arith)
            requires
                v < p,
        ;
        assert(0 <= v * 10) by (nonlinear_arith)
            requires
                0 <= v,
        ;
        assert(pow10(s.len()) == 10 * p);
    }
}

/// Concatenation shifts the left part by ten to the length of the right.
pub proof fn lemma_digits_val_concat(a: Seq<char>, b: Seq<char>)
    ensures
        digits_val(a + b) == digits_val(a) * pow10(b.len()) + digits_val(b),
    decreases b.len(),
{
    if b.len() == 0 {
        assert(a + b =~= a);
    } else {
        lemma_digits_val_concat(a, b.drop_last());
        assert((a + b).drop_last() =~= a + b.drop_last());
        assert((a + b).last() == b.last());
        let va = digits_val(a);
        let p = pow10(b.drop_last().len());
        assert(digits_val(a + b) == (va * p + digits_val(b.drop_last())) * 10 + digit_val(
            b.last(),
        ));
        assert((va * p + digits_val(b.drop_last())) * 10 == va * (10 * p) + digits_val(
            b.drop_last(),
        ) * 10) by (nonlinear_arith);
        assert(pow10(b.len()) == 10 * p);
    }
}

/// Leading zeros do not change the denoted value.
pub proof fn lemma_digits_val_leading_zeros(s: Seq<char>, z: int)
    requires
        0 <= z <= s.len(),
        forall|j: int| 0 <= j < z ==> s[j] == '0',
    ensures
        digits_val(s) == digits_val(s.subrange(z, s.len() as int)),
{
    let zeros = s.subrange(0, z);
    let rest = s.subrange(z, s.len() as int);
    assert(s =~= zeros + rest);
    lemma_digits_val_concat(zeros, rest);
    lemma_zeros_val(zeros);
    assert(0 * pow10(rest.len()) == 0) by (nonlinear_arith);
}

proof fn lemma_digits_val_single(s: Seq<char>)
    requires
        s.len() == 1,
    ensures
        digits_val(s) == digit_val(s.last()),
{
    assert(digits_val(s.drop_last()) == 0);
}

proof fn lemma_zeros_val(s: Seq<char>)
    requires
        forall|j: int| 0 <= j < s.len() ==> s[j] == '0',
    ensures
        digits_val(s) == 0,
    decreases s.len(),
{
    if s.len() > 0 {
        assert forall|j: int| 0 <= j < s.drop_last().len() implies s.drop_last()[j] == '0' by {
            assert(s.drop_last()[j] == s[j]);
        }
        lemma_zeros_val(s.drop_last());
    }
}

/// A digit sequence with a non-zero leading digit denotes at least ten to
/// one less than its length.
pub proof fn lemma_digits_val_lower_bound(s: Seq<char>)
    requires
        all_digits(s),
        s[0] != '0',
    ensures
        digits_val(s) >= pow10((s.len() - 1) as nat),
{
    let head = s.subrange(0, 1);
    let rest = s.subrange(1, s.len() as int);
    assert(s =~= head + rest);
    lemma_digits_val_concat(head, rest);
    lemma_digits_val_single(head);
    assert(head.last() == s[0]);
    assert(is_digit(s[0]));
    lemma_nonzero_digit(s[0]);
    assert(digit_val(s[0]) >= 1);
    assert forall|i: int| 0 <= i < rest.len() implies is_digit(#[trigger] rest[i]) by {
        assert(rest[i] == s[i + 1]);
    }
    lemma_digits_val_bounds(rest);
    let p = pow10(rest.len());
    assert(digit_val(s[0]) * p >= 1 * p) by (nonlinear_arith)
        requires
            digit_val(s[0]) >= 1,
            p >= 0,
    ;
    lemma_pow10_pos(rest.len());
}

fn is_digit_exec(c: char) -> (r: bool)
    ensures
        r == is_digit(c),
{
    let v = c as u32;
    48 <= v && v <= 57
}

/// Whether `s` is non-empty and purely numeric.
pub fn all_digits_exec(s: &str) -> (r: bool)
    ensures
        r == all_digits(s@),
{
    let n = s.unicode_len();
    if n == 0 {
        return false;
    }
    let mut i: usize = 0;
    while i < n
        invariant
            i <= n,
            n == s@.len(),
            forall|j: int| 0 <= j < i ==> is_digit(#[trigger] s@[j]),
        decreases n - i,
    {
        if !is_digit_exec(s.get_char(i)) {
            return false;
        }
        i += 1;
    }
    true
}

/// Index of the first character that is not `'0'` (equals the length when
/// every character is `'0'`).
fn leading_zeros(s: &str) -> (r: usize)
    ensures
        r <= s@.len(),
        forall|j: int| 0 <= j < r ==> s@[j] == '0',
        r < s@.len() ==> s@[r as int] != '0',
{
    let n = s.unicode_len();
    let mut i: usize = 0;
    while i < n
        invariant
            i <= n,
            n == s@.len(),
            forall|j: int| 0 <= j < i ==> s@[j] == '0',
        decreases n - i,
    {
        if s.get_char(i) != '0' {
            return i;
        }
        i += 1;
    }
    n
}

/// Compares two purely numeric components by stripped length, then digit by
/// digit; the result is the sign of the difference of the denoted values.
fn cmp_digit_strs(a: &str, b: &str) -> (r: i32)
    requires
        all_digits(a@),
        all_digits(b@),
    ensures
        r == 1 <==> digits_val(a@) > digits_val(b@),
        r == -1 <==> digits_val(a@) < digits_val(b@),
        r == 0 <==> digits_val(a@) == digits_val(b@),
{
    let na = a.unicode_len();
    let nb = b.unicode_len();
    let za = leading_zeros(a);
    let zb = leading_zeros(b);
    let ghost sa = a@.subrange(za as int, na as int);
    let ghost sb = b@.subrange(zb as int, nb as int);
    proof {
        lemma_digits_val_leading_zeros(a@, za as int);
        lemma_digits_val_leading_zeros(b@, zb as int);
        assert forall|i: int| 0 <= i < sa.len() implies is_digit(#[trigger] sa[i]) by {
            assert(sa[i] == a@[za + i]);
        }
        assert forall|i: int| 0 <= i < sb.len() implies is_digit(#[trigger] sb[i]) by {
            assert(sb[i] == b@[zb + i]);
        }
    }
    let la = na - za;
    let lb = nb - zb;
    if la < lb {
        proof {
            lemma_digits_val_bounds(sa);
            assert(sb[0] == b@[zb as int]);
            lemma_digits_val_lower_bound(sb);
            lemma_pow10_mono(sa.len(), (sb.len() - 1) as nat);
        }
        return -1;
    }
    if la > lb {
        proof {
            lemma_digits_val_bounds(sb);
            assert(sa[0] == a@[za as int]);
            lemma_digits_val_lower_bound(sa);
            lemma_pow10_mono(sb.len(), (sa.len() - 1) as nat);
        }
        return 1;
    }
    // same stripped length: compare digit by digit
    let mut i: usize = 0;
    while i < la
        invariant
            i <= la,
            la == lb,
            za + la == na,
            zb + lb == nb,
            za <= na,
            zb <= nb,
            na == a@.len(),
            nb == b@.len(),
            sa == a@.subrange(za as int, na as int),
            sb == b@.subrange(zb as int, nb as int),
            forall|j: int| 0 <= j < i ==> sa[j] == sb[j],
            all_digits(a@),
            all_digits(b@),
            digits_val(a@) == digits_val(sa),
            digits_val(b@) == digits_val(sb),
        decreases la - i,
    {
        let ca = a.get_char(za + i);
        let cb = b.get_char(zb + i);
        proof {
            assert(sa[i as int] == a@[za + i]);
            assert(sb[i as int] == b@[zb + i]);
        }
        if (ca as u32) > (cb as u32) {
            proof {
                lemma_common_prefix_digit_gt(sa, sb, i as int);
            }
            return 1;
        }
        if (ca as u32) < (cb as u32) {
            proof {
                lemma_common_prefix_digit_gt(sb, sa, i as int);
            }
            return -1;
        }
        i += 1;
    }
    proof {
        assert(sa =~= sb);
    }
    0
}

/// Equal-length digit sequences that agree up to position `i`, where the
/// first holds the greater digit, denote values in the same order.
proof fn lemma_common_prefix_digit_gt(x: Seq<char>, y: Seq<char>, i: int)
    requires
        x.len() == y.len(),
        0 <= i < x.len(),
        forall|i2: int| 0 <= i2 < x.len() ==> is_digit(#[trigger] x[i2]),
        forall|i2: int| 0 <= i2 < y.len() ==> is_digit(#[trigger] y[i2]),
        forall|j: int| 0 <= j < i ==> x[j] == y[j],
        digit_val(x[i]) > digit_val(y[i]),
    ensures
        digits_val(x) > digits_val(y),
{
    let px = x.subrange(0, i);
    let py = y.subrange(0, i);
    let tx = x.subrange(i, x.len() as int);
    let ty = y.subrange(i, y.len() as int);
    assert(x =~= px + tx);
    assert(y =~= py + ty);
    assert(px =~= py);
    lemma_digits_val_concat(px, tx);
    lemma_digits_val_concat(py, ty);
    // the suffixes decide: tx starts with the greater digit
    let rx = tx.subrange(1, tx.len() as int);
    let ry = ty.subrange(1, ty.len() as int);
    assert(tx =~= tx.subrange(0, 1) + rx);
    assert(ty =~= ty.subrange(0, 1) + ry);
    lemma_digits_val_concat(tx.subrange(0, 1), rx);
    lemma_digits_val_concat(ty.subrange(0, 1), ry);
    lemma_digits_val_single(tx.subrange(0, 1));
    lemma_digits_val_single(ty.subrange(0, 1));
    assert(tx.subrange(0, 1).last() == x[i]);
    assert(ty.subrange(0, 1).last() == y[i]);
    assert(digits_val(tx.subrange(0, 1)) == digit_val(x[i]));
    assert(digits_val(ty.subrange(0, 1)) == digit_val(y[i]));
    assert forall|i2: int| 0 <= i2 < rx.len() implies is_digit(#[trigger] rx[i2]) by {
        assert(rx[i2] == x[i + 1 + i2]);
    }
    assert forall|i2: int| 0 <= i2 < ry.len() implies is_digit(#[trigger] ry[i2]) by {
        assert(ry[i2] == y[i + 1 + i2]);
    }
    lemma_digits_val_bounds(rx);
    lemma_digits_val_bounds(ry);
    let p = pow10(rx.len());
    assert(ry.len() == rx.len());
    let dx = digit_val(x[i]);
    let dy = digit_val(y[i]);
    assert(digits_val(tx) == dx * p + digits_val(rx));
    assert(digits_val(ty) == dy * p + digits_val(ry));
    assert(dy * p + digits_val(ry) < dx * p + digits_val(rx)) by (nonlinear_arith)
        requires
            dy + 1 <= dx,
            0 <= digits_val(rx),
            digits_val(ry) < p,
            p >= 1,
    ;
    lemma_pow10_pos(rx.len());
    let q = pow10(tx.len());
    assert(digits_val(px) * q + digits_val(ty) < digits_val(px) * q + digits_val(tx));
}

/// Compares two components numerically: a non-numeric component counts as
/// zero; the result is the sign of the difference.
pub fn cmp_components(a: &str, b: &str) -> (r: i32)
    ensures
        r == 1 <==> comp_val(a@) > comp_val(b@),
        r == -1 <==> comp_val(a@) < comp_val(b@),
        r == 0 <==> comp_val(a@) == comp_val(b@),
{
    let da = all_digits_exec(a);
    let db = all_digits_exec(b);
    if !da && !db {
        0
    } else if !da {
        proof {
            lemma_digits_val_bounds(b@);
        }
        if digits_are_zero(b) {
            0
        } else {
            -1
        }
    } else if !db {
        proof {
            lemma_digits_val_bounds(a@);
        }
        if digits_are_zero(a) {
            0
        } else {
            1
        }
    } else {
        cmp_digit_strs(a, b)
    }
}

/// Whether a purely numeric component denotes zero.
fn digits_are_zero(s: &str) -> (r: bool)
    requires
        all_digits(s@),
    ensures
        r == (digits_val(s@) == 0),
{
    let n = s.unicode_len();
    let z = leading_zeros(s);
    if z == n {
        proof {
            lemma_zeros_val(s@);
        }
        true
    } else {
        proof {
            lemma_digits_val_leading_zeros(s@, z as int);
            let rest = s@.subrange(z as int, n as int);
            assert(rest[0] == s@[z as int]);
            assert forall|i: int| 0 <= i < rest.len() implies is_digit(#[trigger] rest[i]) by {
                assert(rest[i] == s@[z + i]);
            }
            lemma_digits_val_lower_bound(rest);
            lemma_pow10_pos((rest.len() - 1) as nat);
        }
        false
    }
}

} // verus!
