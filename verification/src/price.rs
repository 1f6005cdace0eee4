//! Reading and writing Grand Exchange price amounts such as `1.5m` or `-2.3k`.
use vstd::prelude::*;
use crate::text::{
    all_digits, chars_of, clamped_digits_value, decimal, digits_value, find_char, is_digit, lemma_find_char,
    push_char, push_decimal, std_lowercase, trimmed, to_lowercase, trim_whitespace, pow10,
    all_ascii, ascii_lowered, plain_char, lemma_plain_text, ascii_lower, ascii_upper, ascii_uppered,
    is_white_space, lemma_trimmed_around, signed_decimal,
    lemma_decimal_digits, lemma_digits_value_concat, digit_char, clamp, lemma_clamp_step,
};

verus! {

/// The largest magnitude an amount can have: `i64::MAX`.
pub open spec fn amount_cap() -> nat {
    0x7fff_ffff_ffff_ffff
}

/// `n`, clamped to `i64::MAX`.
pub open spec fn saturate(n: nat) -> nat {
    if n > amount_cap() {
        amount_cap()
    } else {
        n
    }
}

/// One leading `-` or `+` is read as the sign of the amount.
pub open spec fn sign_split(t: Seq<char>) -> (int, Seq<char>) {
    if t.len() > 0 && t[0] == '-' {
        (-1, t.drop_first())
    } else if t.len() > 0 && t[0] == '+' {
        (1, t.drop_first())
    } else {
        (1, t)
    }
}

/// A trailing `k`, `m` or `b` scales the amount by a thousand, a million or a
/// billion; the second component is the power of ten.
pub open spec fn suffix_split(body: Seq<char>) -> (Seq<char>, nat) {
    if body.len() > 0 && body.last() == 'k' {
        (body.drop_last(), 3)
    } else if body.len() > 0 && body.last() == 'm' {
        (body.drop_last(), 6)
    } else if body.len() > 0 && body.last() == 'b' {
        (body.drop_last(), 9)
    } else {
        (body, 0)
    }
}

/// `s` with every `,` removed (thousands separators).
pub open spec fn without_commas(s: Seq<char>) -> Seq<char>
    decreases s.len(),
{
    if s.len() == 0 {
        s
    } else if s.last() == ',' {
        without_commas(s.drop_last())
    } else {
        without_commas(s.drop_last()).push(s.last())
    }
}

/// The integer and fraction digits of a plain decimal numeral (`12`, `1.5`,
/// `.5`, `5.`), or `None` when `s` is not one.
pub open spec fn decimal_parts(s: Seq<char>) -> Option<(Seq<char>, Seq<char>)> {
    let p = find_char(s, '.');
    let ip = s.take(p);
    let fp = if p < s.len() { s.skip(p + 1) } else { Seq::<char>::empty() };
    if all_digits(ip) && all_digits(fp) && ip.len() + fp.len() > 0 {
        Some((ip, fp))
    } else {
        None
    }
}

/// `n` zero digits.
pub open spec fn zeros(n: nat) -> Seq<char> {
    Seq::new(n, |i: int| '0')
}

/// The numeral `ip.fp` times `10^m`, rounded to the nearest integer with
/// halves rounded up.
pub open spec fn scaled_magnitude(ip: Seq<char>, fp: Seq<char>, m: nat) -> nat {
    let d = ip + fp + zeros(m);
    let k: int = (ip.len() + m) as int;
    digits_value(d.take(k)) + if k < d.len() && d[k] >= '5' { 1nat } else { 0nat }
}

/// The digits `d` read with the point after `k` of them (zeros added past
/// the end; a value below a tenth when `k` is negative), rounded to the
/// nearest integer with halves rounded up.
pub open spec fn rounded_at(d: Seq<char>, k: int) -> nat {
    if k < 0 {
        0
    } else {
        digits_value((d + zeros(k as nat)).take(k)) + if k < d.len() && d[k] >= '5' {
            1nat
        } else {
            0nat
        }
    }
}

/// The value of an exponent such as `5`, `+12` or `-3`, or `None`.
pub open spec fn exponent_value(e: Seq<char>) -> Option<int> {
    let (sign, ds) = sign_split(e);
    if ds.len() > 0 && all_digits(ds) {
        Some(sign * digits_value(ds))
    } else {
        None
    }
}

/// The digits of an unsigned numeral in decimal or scientific notation
/// (`12`, `1.5`, `.5`, `5.`, `2e3`, `1.5e-2`) and the position of its point,
/// counted in digits from the left; `None` when it is not such a numeral.
pub open spec fn scientific_parts(r: Seq<char>) -> Option<(Seq<char>, int)> {
    let e = find_char(r, 'e');
    let exp = if e < r.len() {
        exponent_value(r.skip(e + 1))
    } else {
        Some(0int)
    };
    match (decimal_parts(r.take(e)), exp) {
        (Some((ip, fp)), Some(x)) => Some((ip + fp, ip.len() + x)),
        _ => None,
    }
}

/// The magnitude that stands for an infinite numeral: beyond every amount.
pub open spec fn infinite_magnitude() -> nat {
    0x1_0000_0000_0000_0000
}

/// How a numeral in floating-point notation reads when scaled by `10^m`:
/// whether it is negative and its magnitude rounded to an integer (halves
/// up). An optional sign leads; `inf` and `infinity` are infinite and `nan`
/// reads as zero. `None` when the text is no such numeral.
pub open spec fn float_magnitude(s: Seq<char>, m: nat) -> Option<(bool, nat)> {
    let (sign, r) = sign_split(s);
    if r == seq!['i', 'n', 'f'] || r == seq!['i', 'n', 'f', 'i', 'n', 'i', 't', 'y'] {
        Some((sign < 0, infinite_magnitude()))
    } else if r == seq!['n', 'a', 'n'] {
        Some((false, 0))
    } else {
        match scientific_parts(r) {
            Some((d, p)) => Some((sign < 0, rounded_at(d, p + m))),
            None => None,
        }
    }
}

/// The smallest `i64`, as an integer.
pub open spec fn i64_min_int() -> int {
    -0x8000_0000_0000_0000
}

/// The amount for a numeral of magnitude `r`, negative when `neg`, carrying
/// the outer sign `sign`: the numeral's value is clamped to the `i64` range,
/// then multiplied by the sign, where `-i64::MIN` wraps to `i64::MIN`.
pub open spec fn signed_amount(sign: int, neg: bool, r: nat) -> i64 {
    let inner: int = if neg {
        -clamp(r, 0x8000_0000_0000_0000)
    } else {
        saturate(r) as int
    };
    if sign < 0 && inner == i64_min_int() {
        i64::MIN
    } else {
        (sign * inner) as i64
    }
}

/// The amount denoted by already trimmed, lower-case text: an optional sign,
/// a numeral in floating-point notation (an optional sign of its own,
/// decimal or scientific digits, `inf`, `infinity` or `nan`) that may hold
/// `,` separators, and an optional `k`/`m`/`b` suffix. The magnitude is
/// rounded to the nearest integer (halves away from zero), the value
/// clamped to the `i64` range, and then the outer sign applied.
pub open spec fn amount_of(t: Seq<char>) -> Option<i64> {
    if t.len() == 0 {
        None
    } else {
        let (sign, body) = sign_split(t);
        let (num, m) = suffix_split(body);
        match float_magnitude(without_commas(num), m) {
            Some((neg, r)) => Some(signed_amount(sign, neg, r)),
            None => None,
        }
    }
}

/// `cs[start..end]` with the commas removed.
fn remove_commas(t: &Vec<char>, start: usize, end: usize) -> (cleaned: Vec<char>)
    requires
        start <= end <= t@.len(),
    ensures
        cleaned@ == without_commas(t@.subrange(start as int, end as int)),
{
    let mut cleaned: Vec<char> = Vec::new();
    let mut i = start;
    while i < end
        invariant
            start <= i <= end <= t@.len(),
            cleaned@ == without_commas(t@.subrange(start as int, i as int)),
        decreases end - i,
    {
        let c = t[i];
        assert(t@.subrange(start as int, i + 1).drop_last() == t@.subrange(start as int, i as int));
        if c != ',' {
            cleaned.push(c);
        }
        i = i + 1;
    }
    cleaned
}

/// Index of the first `c` in `cs`, or its length.
fn find_in(cs: &Vec<char>, c: char) -> (p: usize)
    ensures
        p as int == find_char(cs@, c),
        p <= cs@.len(),
{
    let clen = cs.len();
    let mut p: usize = 0;
    while p < clen && cs[p] != c
        invariant
            p <= clen == cs@.len(),
            forall|j: int| 0 <= j < p ==> cs@[j] != c,
        decreases clen - p,
    {
        p = p + 1;
    }
    proof {
        lemma_find_char(cs@, c, p as int);
    }
    p
}

/// A copy of `cs[a..b]`.
fn sub_chars(cs: &Vec<char>, a: usize, b: usize) -> (v: Vec<char>)
    requires
        a <= b <= cs@.len(),
    ensures
        v@ == cs@.subrange(a as int, b as int),
{
    let mut v: Vec<char> = Vec::new();
    let mut i = a;
    while i < b
        invariant
            a <= i <= b <= cs@.len(),
            v@ == cs@.subrange(a as int, i as int),
        decreases b - i,
    {
        v.push(cs[i]);
        assert(cs@.subrange(a as int, i + 1) == cs@.subrange(a as int, i as int).push(cs@[i as int]));
        i = i + 1;
    }
    v
}

/// Whether `a` and `b` hold the same characters.
fn same_chars(a: &Vec<char>, b: &Vec<char>) -> (r: bool)
    ensures
        r == (a@ == b@),
{
    if a.len() != b.len() {
        return false;
    }
    let mut i: usize = 0;
    while i < a.len()
        invariant
            a@.len() == b@.len(),
            i <= a@.len(),
            forall|q: int| 0 <= q < i ==> a@[q] == b@[q],
        decreases a@.len() - i,
    {
        if a[i] != b[i] {
            return false;
        }
        i = i + 1;
    }
    assert(a@ =~= b@);
    true
}

/// Reads an exponent (`5`, `+12`, `-3`): whether it is negative and its
/// magnitude clamped to `cap`.
fn read_exponent(e: &Vec<char>, cap: u128) -> (r: Option<(bool, u128)>)
    requires
        cap <= 0x1_0000_0000_0000_0000_0000,
    ensures
        match exponent_value(e@) {
            Some(x) => r matches Some((neg, v)) && (if neg { x <= 0 } else { x >= 0 }) && v as nat
                == clamp(magnitude(x), cap as nat),
            None => r is None,
        },
{
    let len = e.len();
    let (neg, start): (bool, usize) = if len > 0 && e[0] == '-' {
        (true, 1)
    } else if len > 0 && e[0] == '+' {
        (false, 1)
    } else {
        (false, 0)
    };
    let ghost ds = e@.subrange(start as int, len as int);
    assert(sign_split(e@).1 == ds);
    if start == len {
        return None;
    }
    let mut i = start;
    while i < len
        invariant
            start <= i <= len == e@.len(),
            ds == e@.subrange(start as int, len as int),
            sign_split(e@).1 == ds,
            forall|q: int| start <= q < i ==> is_digit(#[trigger] e@[q]),
        decreases len - i,
    {
        let c = e[i];
        if !('0' <= c && c <= '9') {
            assert(ds[i - start] == c);
            assert(!is_digit(ds[i - start]));
            return None;
        }
        i = i + 1;
    }
    assert(all_digits(ds)) by {
        assert forall|q: int| 0 <= q < ds.len() implies is_digit(#[trigger] ds[q]) by {
            assert(ds[q] == e@[start + q]);
        }
    }
    let v = clamped_digits_value(e, start, len, cap);
    assert(sign_split(e@).0 == (if neg { -1int } else { 1int }));
    Some((neg, v))
}

/// `10^19`: beyond the magnitude of every `i64`.
pub open spec fn magnitude_cap() -> nat {
    10_000_000_000_000_000_000
}

/// Zeros after a digit string multiply its value by ten for each.
proof fn lemma_digits_value_zeros(s: Seq<char>, n: nat)
    ensures
        digits_value(s + zeros(n)) == digits_value(s) * pow10(n),
{
    lemma_zeros(n);
    lemma_digits_value_concat(s, zeros(n));
}

/// A digit string has a positive value exactly when one of its digits is
/// not zero.
proof fn lemma_digits_value_positive(s: Seq<char>)
    requires
        all_digits(s),
    ensures
        digits_value(s) > 0 <==> exists|i: int| 0 <= i < s.len() && s[i] != '0',
    decreases s.len(),
{
    if s.len() > 0 {
        let pre = s.drop_last();
        assert(all_digits(pre)) by {
            assert forall|i: int| 0 <= i < pre.len() implies is_digit(#[trigger] pre[i]) by {
                assert(pre[i] == s[i]);
            }
        }
        lemma_digits_value_positive(pre);
        assert(is_digit(s[s.len() - 1]));
        if exists|i: int| 0 <= i < pre.len() && pre[i] != '0' {
            let i = choose|i: int| 0 <= i < pre.len() && pre[i] != '0';
            assert(s[i] != '0');
        }
        if exists|i: int| 0 <= i < s.len() && s[i] != '0' {
            let i = choose|i: int| 0 <= i < s.len() && s[i] != '0';
            if i < pre.len() {
                assert(pre[i] != '0');
            }
        }
    }
}

/// `10^n` is at least `10^19` from `n = 19` on.
proof fn lemma_pow10_large(n: nat)
    requires
        n >= 19,
    ensures
        pow10(n) >= magnitude_cap(),
    decreases n,
{
    if n > 19 {
        lemma_pow10_large((n - 1) as nat);
    } else {
        reveal_with_fuel(pow10, 20);
    }
}

/// Read with the point twenty or more places past their end, digits give
/// at least `10^19` when one of them is not zero, and zero otherwise.
proof fn lemma_rounded_far(d: Seq<char>, k: int)
    requires
        all_digits(d),
        k >= d.len() + 20,
    ensures
        (exists|i: int| 0 <= i < d.len() && d[i] != '0') ==> rounded_at(d, k) >= magnitude_cap(),
        !(exists|i: int| 0 <= i < d.len() && d[i] != '0') ==> rounded_at(d, k) == 0,
{
    let n = (k - d.len()) as nat;
    assert((d + zeros(k as nat)).take(k) =~= d + zeros(n));
    lemma_digits_value_zeros(d, n);
    lemma_digits_value_positive(d);
    lemma_pow10_large(n);
    let x = digits_value(d);
    let p = pow10(n);
    if x > 0 {
        assert(x * p >= p) by (nonlinear_arith)
            requires
                x >= 1,
                p >= 0,
        ;
    } else {
        assert(x * p == 0) by (nonlinear_arith)
            requires
                x == 0,
        ;
    }
}

/// Whether one of the digits is not zero.
fn has_nonzero(d: &Vec<char>) -> (r: bool)
    ensures
        r == exists|i: int| 0 <= i < d@.len() && d@[i] != '0',
{
    let mut i: usize = 0;
    while i < d.len()
        invariant
            i <= d@.len(),
            forall|q: int| 0 <= q < i ==> d@[q] == '0',
        decreases d@.len() - i,
    {
        if d[i] != '0' {
            return true;
        }
        i = i + 1;
    }
    false
}

/// The digits `d` read with the point after `k` of them and rounded, capped
/// at `10^19`.
fn rounded_capped(d: &Vec<char>, k: i128) -> (r: u64)
    requires
        all_digits(d@),
    ensures
        r as nat == clamp(rounded_at(d@, k as int), magnitude_cap()),
{
    let len = d.len();
    if k < 0 {
        return 0;
    }
    if k >= len as i128 + 20 {
        proof {
            lemma_rounded_far(d@, k as int);
        }
        return if has_nonzero(d) {
            10_000_000_000_000_000_000
        } else {
            0
        };
    }
    let j: usize = if k < len as i128 {
        k as usize
    } else {
        len
    };
    let extra: usize = (k - j as i128) as usize;
    assert(extra < 20);
    assert(d@.subrange(0, j as int) == d@.take(j as int));
    assert(all_digits(d@.take(j as int))) by {
        assert forall|q: int| 0 <= q < j implies is_digit(#[trigger] d@.take(j as int)[q]) by {
            assert(is_digit(d@[q]));
        }
    }
    let mut acc: u128 = clamped_digits_value(d, 0, j, 10_000_000_000_000_000_000);
    let ghost head = digits_value(d@.take(j as int));
    assert(pow10(0) == 1);
    assert(head * pow10(0) == head);
    let mut z: usize = 0;
    while z < extra
        invariant
            z <= extra,
            acc as nat == clamp(head * pow10(z as nat), magnitude_cap()),
        decreases extra - z,
    {
        proof {
            lemma_clamp_step(head * pow10(z as nat), 0, magnitude_cap());
            assert(head * pow10((z + 1) as nat) == 10 * (head * pow10(z as nat))) by (nonlinear_arith)
                requires
                    pow10((z + 1) as nat) == 10 * pow10(z as nat),
            ;
        }
        acc = if acc * 10 > 10_000_000_000_000_000_000 {
            10_000_000_000_000_000_000
        } else {
            acc * 10
        };
        z = z + 1;
    }
    proof {
        assert((d@ + zeros(k as nat)).take(k as int) =~= d@.take(j as int) + zeros(extra as nat));
        lemma_digits_value_zeros(d@.take(j as int), extra as nat);
    }
    if k < len as i128 && d[k as usize] >= '5' {
        acc = if acc + 1 > 10_000_000_000_000_000_000 {
            10_000_000_000_000_000_000
        } else {
            acc + 1
        };
    }
    acc as u64
}

/// The digits of a plain decimal numeral with the point removed, or `None`
/// when `cs` is not such a numeral.
fn numeral_digits(cs: &Vec<char>) -> (r: Option<(Vec<char>, usize)>)
    ensures
        match decimal_parts(cs@) {
            Some((ip, fp)) => r matches Some((d, p)) && d@ == ip + fp && p == ip.len(),
            None => r is None,
        },
{
    let p = find_in(cs, '.');
    let clen = cs.len();
    let ghost s = cs@;
    let ghost ip = s.take(p as int);
    let ghost fp = if p < clen { s.skip(p + 1) } else { Seq::<char>::empty() };
    let mut digits: Vec<char> = Vec::new();
    let mut j: usize = 0;
    while j < p
        invariant
            j <= p <= clen == s.len(),
            cs@ == s,
            ip == s.take(p as int),
            p as int == find_char(s, '.'),
            fp == (if p < clen { s.skip(p + 1) } else { Seq::<char>::empty() }),
            digits@ == s.take(j as int),
            forall|q: int| 0 <= q < j ==> is_digit(#[trigger] s[q]),
        decreases p - j,
    {
        let c = cs[j];
        if !('0' <= c && c <= '9') {
            assert(ip[j as int] == c);
            assert(!is_digit(ip[j as int]));
            assert(!all_digits(ip));
            return None;
        }
        digits.push(c);
        assert(s.take(j + 1) == s.take(j as int).push(c));
        j = j + 1;
    }
    assert(all_digits(ip)) by {
        assert forall|q: int| 0 <= q < ip.len() implies is_digit(#[trigger] ip[q]) by {
            assert(ip[q] == s[q]);
        }
    }
    if p < clen {
        let mut j: usize = p + 1;
        while j < clen
            invariant
                p < j <= clen == s.len(),
                cs@ == s,
                fp == s.skip(p + 1),
                ip == s.take(p as int),
                p as int == find_char(s, '.'),
                digits@ == ip + s.subrange(p + 1, j as int),
                forall|q: int| p < q < j ==> is_digit(#[trigger] s[q]),
            decreases clen - j,
        {
            let c = cs[j];
            if !('0' <= c && c <= '9') {
                assert(fp[j - p - 1] == c);
                assert(!is_digit(fp[j - p - 1]));
                assert(!all_digits(fp));
                return None;
            }
            digits.push(c);
            assert(s.subrange(p + 1, j + 1) == s.subrange(p + 1, j as int).push(c));
            j = j + 1;
        }
        assert(s.subrange(p + 1, clen as int) == fp);
        assert(all_digits(fp)) by {
            assert forall|q: int| 0 <= q < fp.len() implies is_digit(#[trigger] fp[q]) by {
                assert(fp[q] == s[p + 1 + q]);
            }
        }
    } else {
        assert(s.take(p as int) == s);
        assert(digits@ == ip + fp);
    }
    if digits.len() == 0 {
        return None;
    }
    Some((digits, p))
}

/// Reads a numeral in floating-point notation scaled by `10^m`: whether it
/// is negative and its rounded magnitude, capped at `10^19`.
fn read_float(cs: &Vec<char>, m: usize) -> (r: Option<(bool, u64)>)
    requires
        m <= 9,
    ensures
        match float_magnitude(cs@, m as nat) {
            Some((neg, x)) => r == Some((neg, clamp(x, magnitude_cap()) as u64)),
            None => r is None,
        },
{
    let len = cs.len();
    let (neg, start): (bool, usize) = if len > 0 && cs[0] == '-' {
        (true, 1)
    } else if len > 0 && cs[0] == '+' {
        (false, 1)
    } else {
        (false, 0)
    };
    let rest = sub_chars(cs, start, len);
    assert(sign_split(cs@) == ((if neg { -1int } else { 1int }), rest@));
    let inf = vec!['i', 'n', 'f'];
    let infinity = vec!['i', 'n', 'f', 'i', 'n', 'i', 't', 'y'];
    let nan = vec!['n', 'a', 'n'];
    assert(inf@ == seq!['i', 'n', 'f']);
    assert(infinity@ == seq!['i', 'n', 'f', 'i', 'n', 'i', 't', 'y']);
    assert(nan@ == seq!['n', 'a', 'n']);
    if same_chars(&rest, &inf) || same_chars(&rest, &infinity) {
        return Some((neg, 10_000_000_000_000_000_000));
    }
    if same_chars(&rest, &nan) {
        return Some((false, 0));
    }
    let rlen = rest.len();
    let e = find_in(&rest, 'e');
    let mant = sub_chars(&rest, 0, e);
    assert(mant@ == rest@.take(e as int));
    match numeral_digits(&mant) {
        None => None,
        Some((digits, p)) => {
            let ghost ip = decimal_parts(mant@).unwrap().0;
            let ghost fp = decimal_parts(mant@).unwrap().1;
            assert(all_digits(digits@)) by {
                assert forall|q: int| 0 <= q < digits@.len() implies is_digit(#[trigger] digits@[q]) by {
                    if q < ip.len() {
                        assert(digits@[q] == ip[q]);
                    } else {
                        assert(digits@[q] == fp[q - ip.len()]);
                    }
                }
            }
            let dlen = digits.len();
            let cap: u128 = dlen as u128 + 64;
            let (eneg, ev): (bool, u128) = if e < rlen {
                let ex = sub_chars(&rest, e + 1, rlen);
                assert(ex@ == rest@.skip(e + 1));
                match read_exponent(&ex, cap) {
                    None => {
                        return None;
                    },
                    Some(pair) => pair,
                }
            } else {
                (false, 0)
            };
            let ghost x: int = if e < rlen {
                exponent_value(rest@.skip(e + 1))->0
            } else {
                0
            };
            assert(scientific_parts(rest@) == Some((ip + fp, ip.len() + x)));
            let base: i128 = p as i128 + m as i128;
            let k: i128 = if eneg {
                base - ev as i128
            } else {
                base + ev as i128
            };
            proof {
                if magnitude(x) > cap {
                    if x > 0 {
                        lemma_rounded_far(digits@, k as int);
                        lemma_rounded_far(digits@, p + m + x);
                    }
                } else {
                    assert(k == p + m + x);
                }
            }
            let r = rounded_capped(&digits, k);
            Some((neg, r))
        },
    }
}

/// The amount for a numeral of magnitude `r` (capped at `10^19`), negative
/// when `neg`, under an outer `-` when `outer_neg`.
fn apply_signs(outer_neg: bool, neg: bool, r: u64) -> (a: i64)
    requires
        r <= magnitude_cap(),
    ensures
        a == signed_amount(if outer_neg { -1int } else { 1int }, neg, r as nat),
{
    let inner: i64 = if neg {
        if r >= 0x8000_0000_0000_0000 {
            i64::MIN
        } else {
            -(r as i64)
        }
    } else if r > 0x7fff_ffff_ffff_ffff {
        i64::MAX
    } else {
        r as i64
    };
    if outer_neg {
        if inner == i64::MIN {
            i64::MIN
        } else {
            -inner
        }
    } else {
        inner
    }
}

/// Reads lower-case, trimmed amount characters such as `1.5m`, `-2.3k`,
/// `1,000`, `100` or `1e3`.
fn read_amount(t: &Vec<char>) -> (r: Option<i64>)
    ensures
        r == amount_of(t@),
{
    let len = t.len();
    if len == 0 {
        return None;
    }
    let ghost split = sign_split(t@);
    let (outer_neg, start): (bool, usize) = if t[0] == '-' {
        (true, 1)
    } else if t[0] == '+' {
        (false, 1)
    } else {
        (false, 0)
    };
    assert(split.1 == t@.subrange(start as int, len as int));
    assert(split.0 == (if outer_neg { -1int } else { 1int }));
    let ghost body = split.1;
    let (end, m): (usize, usize) = if len > start && t[len - 1] == 'k' {
        (len - 1, 3)
    } else if len > start && t[len - 1] == 'm' {
        (len - 1, 6)
    } else if len > start && t[len - 1] == 'b' {
        (len - 1, 9)
    } else {
        (len, 0)
    };
    assert(suffix_split(body) == (t@.subrange(start as int, end as int), m as nat));
    let cleaned = remove_commas(t, start, end);
    match read_float(&cleaned, m) {
        None => None,
        Some((neg, mag)) => Some(apply_signs(outer_neg, neg, mag)),
    }
}

/// Reads a lower-case, trimmed amount such as `1.5m`, `-2.3k`, `1,000`,
/// `100` or `2e3`: exactly `amount_of` of its characters.
pub fn parse_amount(t: &str) -> (r: Option<i64>)
    ensures
        r == amount_of(t@),
{
    let cs = chars_of(t);
    read_amount(&cs)
}

/// Reads a price amount as the Grand Exchange writes it (`1.5m`, `-2.3k`,
/// `100`): the text is trimmed of white space and lower-cased first, then read
/// as `amount_of` describes, the numeral in the notation of floating-point
/// numbers (`2e3`, `inf`, `nan` too). Text that is not such an amount gives
/// `None`.
pub fn parse_abbrev(txt: &str) -> (r: Option<i64>)
    ensures
        r == amount_of(std_lowercase(trimmed(txt@))),
        all_ascii(trimmed(txt@)) ==> r == amount_of(ascii_lowered(trimmed(txt@))),
{
    let bare = trim_whitespace(txt);
    let lower = to_lowercase(bare.as_str());
    parse_amount(lower.as_str())
}

/// The magnitude unit and suffix used for a magnitude `a`.
pub open spec fn unit_of(a: nat) -> (nat, Seq<char>) {
    if a >= 1_000_000_000 {
        (1_000_000_000, seq!['b'])
    } else if a >= 1_000_000 {
        (1_000_000, seq!['m'])
    } else if a >= 1_000 {
        (1_000, seq!['k'])
    } else {
        (1, Seq::<char>::empty())
    }
}

/// `|v|`.
pub open spec fn magnitude(v: int) -> nat {
    if v < 0 {
        (-v) as nat
    } else {
        v as nat
    }
}

/// `n / d` rounded to the nearest integer, a tie going to the even neighbour.
pub open spec fn round_half_even(n: nat, d: nat) -> nat {
    let q = n / d;
    let r = n % d;
    if 2 * r > d || (2 * r == d && q % 2 == 1) {
        q + 1
    } else {
        q
    }
}

/// `n / d` rounded to the nearest integer, a tie going to the even neighbour.
pub fn div_round_half_even(n: u128, d: u128) -> (q: u128)
    requires
        d > 0,
    ensures
        q == round_half_even(n as nat, d as nat),
{
    let q = n / d;
    let r = n % d;
    if r > d - r || (r == d - r && q % 2 == 1) {
        assert(q < n || n == 0) by (nonlinear_arith)
            requires
                q == n / d,
                r == n % d,
                d >= 2,
        ;
        assert(d >= 2);
        q + 1
    } else {
        q
    }
}

/// The compact text of an amount: magnitudes below a thousand are written in
/// full; larger ones in thousands (`k`), millions (`m`) or billions (`b`),
/// with one decimal below a hundred units and none from a hundred units on,
/// rounded to nearest with a tie going to the even digit; a `-` leads negative amounts.
pub open spec fn compact_text(v: int) -> Seq<char> {
    let a = magnitude(v);
    let sign = if v < 0 { seq!['-'] } else { Seq::<char>::empty() };
    let (unit, suffix) = unit_of(a);
    if a < 1000 {
        sign + decimal(a)
    } else if a >= 100 * unit {
        sign + decimal(round_half_even(a, unit)) + suffix
    } else {
        let r = round_half_even(10 * a, unit);
        sign + decimal(r / 10) + seq!['.'] + decimal(r % 10) + suffix
    }
}

/// Writes an amount compactly, e.g. `1500000` as `1.5m`, `-2300` as `-2.3k`,
/// `100000` as `100k` and `999` as `999`.
pub fn format_price_compact(v: i64) -> (s: String)
    ensures
        s@ == compact_text(v as int),
{
    let a: u64 = if v < 0 {
        ((-(v + 1)) as u64) + 1
    } else {
        v as u64
    };
    assert(a as nat == magnitude(v as int));
    let mut s = String::new();
    if v < 0 {
        push_char(&mut s, '-');
    }
    if a < 1000 {
        push_decimal(&mut s, a as u128);
        return s;
    }
    let (unit, suffix): (u64, char) = if a >= 1_000_000_000 {
        (1_000_000_000, 'b')
    } else if a >= 1_000_000 {
        (1_000_000, 'm')
    } else {
        (1_000, 'k')
    };
    assert(unit_of(a as nat) == (unit as nat, seq![suffix]));
    if a >= 100 * unit {
        push_decimal(&mut s, div_round_half_even(a as u128, unit as u128));
    } else {
        let r = div_round_half_even(10 * a as u128, unit as u128);
        push_decimal(&mut s, (r / 10) as u128);
        push_char(&mut s, '.');
        push_decimal(&mut s, (r % 10) as u128);
    }
    push_char(&mut s, suffix);
    s
}

proof fn lemma_zeros(m: nat)
    ensures
        all_digits(zeros(m)),
        digits_value(zeros(m)) == 0,
    decreases m,
{
    if m > 0 {
        lemma_zeros((m - 1) as nat);
        assert(zeros(m).drop_last() == zeros((m - 1) as nat));
    } else {
        assert(zeros(m) =~= Seq::<char>::empty());
    }
}

proof fn lemma_without_commas_plain(s: Seq<char>)
    requires
        forall|i: int| 0 <= i < s.len() ==> s[i] != ',',
    ensures
        without_commas(s) == s,
    decreases s.len(),
{
    if s.len() > 0 {
        lemma_without_commas_plain(s.drop_last());
        assert(s.drop_last().push(s.last()) == s);
    }
}

/// The sign the formatter writes before an amount.
pub open spec fn sign_text(neg: bool) -> Seq<char> {
    if neg {
        seq!['-']
    } else {
        Seq::<char>::empty()
    }
}

/// The fraction part the formatter writes, if any.
pub open spec fn fraction_text(dot: bool, fp: Seq<char>) -> Seq<char> {
    if dot {
        seq!['.'] + fp
    } else {
        Seq::<char>::empty()
    }
}

/// Reading digits with the point after `ip` and `m` more places is what
/// `scaled_magnitude` computes.
proof fn lemma_rounded_at_scaled(ip: Seq<char>, fp: Seq<char>, m: nat)
    ensures
        rounded_at(ip + fp, (ip.len() + m) as int) == scaled_magnitude(ip, fp, m),
{
    let d = ip + fp;
    let k: int = (ip.len() + m) as int;
    let full = ip + fp + zeros(m);
    assert((d + zeros(k as nat)).take(k) =~= full.take(k)) by {
        assert forall|i: int| 0 <= i < k implies #[trigger] (d + zeros(k as nat)).take(k)[i] == full.take(k)[i] by {
            if i < d.len() {
                assert((d + zeros(k as nat))[i] == d[i]);
                assert(full[i] == d[i]);
            } else {
                assert((d + zeros(k as nat))[i] == '0');
                assert(full[i] == '0');
            }
        }
    }
    if d.len() <= k && k < full.len() {
        assert(full[k] == '0');
    } else if k < d.len() {
        assert(full[k] == d[k]);
    }
}

/// Reading a sign, digits, an optional fraction and an optional suffix gives
/// the signed, scaled value of the digits.
#[verifier::rlimit(40)]
#[verifier::spinoff_prover]
proof fn lemma_amount_of_numeral(
    neg: bool,
    ip: Seq<char>,
    fp: Seq<char>,
    dot: bool,
    suffix: Seq<char>,
    m: nat,
)
    requires
        all_digits(ip),
        ip.len() >= 1,
        all_digits(fp),
        dot || fp.len() == 0,
        (suffix == Seq::<char>::empty() && m == 0) || (suffix == seq!['k'] && m == 3) || (suffix
            == seq!['m'] && m == 6) || (suffix == seq!['b'] && m == 9),
    ensures
        amount_of(sign_text(neg) + ip + fraction_text(dot, fp) + suffix) == Some(
            ((if neg { -1int } else { 1int }) * saturate(scaled_magnitude(ip, fp, m))) as i64,
        ),
{
    let num = ip + fraction_text(dot, fp);
    let body = num + suffix;
    let t = sign_text(neg) + ip + fraction_text(dot, fp) + suffix;
    assert(t == sign_text(neg) + body);
    assert(is_digit(ip[0]));
    if neg {
        assert(t[0] == '-');
        assert(t.drop_first() == body);
    } else {
        assert(t == body);
        assert(t[0] == ip[0]);
    }
    assert(sign_split(t) == ((if neg { -1int } else { 1int }), body));
    if suffix.len() == 0 {
        assert(body == num);
        if dot && fp.len() > 0 {
            assert(body.last() == fp.last());
            assert(is_digit(fp[fp.len() - 1]));
        } else if dot {
            assert(body.last() == '.');
        } else {
            assert(body.last() == ip.last());
            assert(is_digit(ip[ip.len() - 1]));
        }
    } else {
        assert(body.last() == suffix[0]);
        assert(body.drop_last() == num);
    }
    assert(suffix_split(body) == (num, m));
    assert forall|i: int| 0 <= i < num.len() implies num[i] != ',' by {
        if i < ip.len() {
            assert(is_digit(ip[i]));
        } else if i > ip.len() {
            assert(num[i] == fp[i - ip.len() - 1]);
            assert(is_digit(fp[i - ip.len() - 1]));
        }
    }
    lemma_without_commas_plain(num);
    if dot {
        assert forall|j: int| 0 <= j < ip.len() implies num[j] != '.' by {
            assert(is_digit(ip[j]));
        }
        lemma_find_char(num, '.', ip.len() as int);
        assert(num.take(ip.len() as int) == ip);
        assert(num.skip(ip.len() as int + 1) == fp);
    } else {
        assert(num == ip);
        assert forall|j: int| 0 <= j < num.len() implies num[j] != '.' by {
            assert(is_digit(ip[j]));
        }
        lemma_find_char(num, '.', num.len() as int);
        assert(num.take(num.len() as int) == ip);
        assert(fp == Seq::<char>::empty());
    }
    assert(decimal_parts(without_commas(num)) == Some((ip, fp)));
    assert(without_commas(num) == num);
    assert forall|j: int| 0 <= j < num.len() implies num[j] != 'e' by {
        if j < ip.len() {
            assert(is_digit(ip[j]));
        } else if j > ip.len() {
            assert(num[j] == fp[j - ip.len() - 1]);
            assert(is_digit(fp[j - ip.len() - 1]));
        }
    }
    lemma_find_char(num, 'e', num.len() as int);
    assert(num.take(num.len() as int) == num);
    assert(num[0] == ip[0]);
    assert(sign_split(num) == (1int, num));
    assert(num != seq!['i', 'n', 'f'] && num != seq!['i', 'n', 'f', 'i', 'n', 'i', 't', 'y'] && num != seq!['n', 'a', 'n']) by {
        assert(is_digit(num[0]));
    }
    assert(scientific_parts(num) == Some((ip + fp, ip.len() as int)));
    lemma_rounded_at_scaled(ip, fp, m);
    assert(float_magnitude(num, m) == Some((false, scaled_magnitude(ip, fp, m))));
}

proof fn lemma_scaled_integer(q: nat, m: nat)
    ensures
        scaled_magnitude(decimal(q), Seq::<char>::empty(), m) == q * pow10(m),
{
    let ip = decimal(q);
    lemma_decimal_digits(q);
    lemma_zeros(m);
    let d = ip + Seq::<char>::empty() + zeros(m);
    let k = (ip.len() + m) as int;
    assert(d.take(k) == ip + zeros(m));
    lemma_digits_value_concat(ip, zeros(m));
}

proof fn lemma_scaled_one_decimal(q: nat, e: nat, m: nat)
    requires
        e < 10,
        m >= 1,
    ensures
        scaled_magnitude(decimal(q), decimal(e), m) == q * pow10(m) + e * pow10((m - 1) as nat),
{
    let ip = decimal(q);
    let fp = decimal(e);
    lemma_decimal_digits(q);
    lemma_decimal_digits(e);
    lemma_zeros((m - 1) as nat);
    assert(fp == seq![digit_char(e)]);
    let d = ip + fp + zeros(m);
    let k = (ip.len() + m) as int;
    assert(d.take(k) == (ip + fp) + zeros((m - 1) as nat));
    assert(d[k] == '0');
    lemma_digits_value_concat(ip + fp, zeros((m - 1) as nat));
    lemma_digits_value_concat(ip, fp);
    assert(fp.len() == 1);
    assert(pow10(1) == 10 * pow10(0));
    assert(pow10(0) == 1);
    assert(digits_value(ip + fp) == q * 10 + e);
    assert(!(k < d.len() && d[k] >= '5'));
    assert(scaled_magnitude(ip, fp, m) == digits_value(d.take(k)));
    assert(digits_value(d.take(k)) == (q * 10 + e) * pow10((m - 1) as nat));
    assert(pow10(m) == 10 * pow10((m - 1) as nat));
    let x = pow10((m - 1) as nat);
    assert((q * 10 + e) * x == q * (10 * x) + e * x) by (nonlinear_arith);
}

/// The magnitude the compact text of an amount of magnitude `a` shows:
/// `a` itself below a thousand, otherwise `a` rounded to the shown unit.
pub open spec fn shown_magnitude(a: nat) -> nat {
    let (unit, suffix) = unit_of(a);
    if a < 1000 {
        a
    } else if a >= 100 * unit {
        round_half_even(a, unit) * unit
    } else {
        round_half_even(10 * a, unit) * (unit / 10)
    }
}

/// The value of the last digit shown for a magnitude `a`.
pub open spec fn shown_step(a: nat) -> nat {
    let (unit, suffix) = unit_of(a);
    if a < 1000 {
        1
    } else if a >= 100 * unit {
        unit
    } else {
        unit / 10
    }
}

/// Reading back the compact text of an amount gives the amount as shown:
/// exactly for magnitudes below a thousand, and otherwise rounded to the
/// last digit shown (never more than half a step away), clamped to
/// `i64::MAX` in magnitude.
#[verifier::rlimit(60)]
#[verifier::spinoff_prover]
pub proof fn lemma_compact_text_reads_back(v: i64)
    ensures
        amount_of(compact_text(v as int)) == Some(
            ((if v < 0 { -1int } else { 1int }) * saturate(shown_magnitude(magnitude(v as int))))
                as i64,
        ),
        magnitude(v as int) < 1000 ==> amount_of(compact_text(v as int)) == Some(v),
        2 * shown_magnitude(magnitude(v as int)) <= 2 * magnitude(v as int) + shown_step(
            magnitude(v as int),
        ),
        2 * magnitude(v as int) <= 2 * shown_magnitude(magnitude(v as int)) + shown_step(
            magnitude(v as int),
        ),
{
    let a = magnitude(v as int);
    let neg = v < 0;
    let (unit, suffix) = unit_of(a);
    let m: nat = if a >= 1_000_000_000 { 9 } else if a >= 1_000_000 { 6 } else if a >= 1000 { 3 } else { 0 };
    assert(pow10(0) == 1);
    assert(pow10(1) == 10);
    assert(pow10(2) == 100);
    assert(pow10(3) == 1000);
    assert(pow10(4) == 10000);
    assert(pow10(5) == 100000);
    assert(pow10(6) == 1000000);
    assert(pow10(7) == 10000000);
    assert(pow10(8) == 100000000);
    assert(pow10(9) == 1000000000);
    assert(sign_text(neg) == (if v < 0 { seq!['-'] } else { Seq::<char>::empty() }));
    if a < 1000 {
        lemma_decimal_digits(a);
        lemma_scaled_integer(a, 0);
        lemma_amount_of_numeral(neg, decimal(a), Seq::<char>::empty(), false, Seq::<char>::empty(), 0);
        assert(compact_text(v as int) == sign_text(neg) + decimal(a) + fraction_text(false, Seq::<char>::empty()) + Seq::<char>::empty());
    } else if a >= 100 * unit {
        let q = round_half_even(a, unit);
        lemma_decimal_digits(q);
        lemma_scaled_integer(q, m);
        lemma_amount_of_numeral(neg, decimal(q), Seq::<char>::empty(), false, suffix, m);
        assert(compact_text(v as int) == sign_text(neg) + decimal(q) + fraction_text(false, Seq::<char>::empty()) + suffix);
    } else {
        let r = round_half_even(10 * a, unit);
        lemma_decimal_digits(r / 10);
        lemma_decimal_digits(r % 10);
        lemma_scaled_one_decimal(r / 10, r % 10, m);
        lemma_amount_of_numeral(neg, decimal(r / 10), decimal(r % 10), true, suffix, m);
        assert(compact_text(v as int) == sign_text(neg) + decimal(r / 10) + fraction_text(true, decimal(r % 10)) + suffix);
        if m == 3 {
            assert((r / 10) * 1000 + (r % 10) * 100 == r * 100);
        } else if m == 6 {
            assert((r / 10) * 1000000 + (r % 10) * 100000 == r * 100000);
        } else {
            assert((r / 10) * 1000000000 + (r % 10) * 100000000 == r * 100000000);
        }
    }
}

/// The compact text of an amount is made of plain characters (digits, `-`,
/// `.` and a lower-case suffix), so it is ASCII, has no white space to trim
/// and is its own lower-case form: `parse_abbrev` reads it exactly as
/// `amount_of` does.
pub proof fn lemma_compact_text_is_plain(v: int)
    ensures
        all_ascii(compact_text(v)),
        trimmed(compact_text(v)) == compact_text(v),
        ascii_lowered(compact_text(v)) == compact_text(v),
{
    let a = magnitude(v);
    let (unit, suffix) = unit_of(a);
    let t = compact_text(v);
    let sign = if v < 0 { seq!['-'] } else { Seq::<char>::empty() };
    lemma_decimal_digits(a);
    lemma_decimal_digits(round_half_even(a, unit));
    let r = round_half_even(10 * a, unit);
    lemma_decimal_digits(r / 10);
    lemma_decimal_digits(r % 10);
    assert forall|i: int| 0 <= i < t.len() implies plain_char(#[trigger] t[i]) by {
        if a < 1000 {
            assert(t == sign + decimal(a));
            if i >= sign.len() {
                assert(t[i] == decimal(a)[i - sign.len()]);
            }
        } else if a >= 100 * unit {
            let d = decimal(round_half_even(a, unit));
            assert(t == sign + d + suffix);
            if sign.len() <= i < sign.len() + d.len() {
                assert(t[i] == d[i - sign.len()]);
            }
        } else {
            let d1 = decimal(r / 10);
            let d2 = decimal(r % 10);
            assert(t == sign + d1 + seq!['.'] + d2 + suffix);
            if sign.len() <= i < sign.len() + d1.len() {
                assert(t[i] == d1[i - sign.len()]);
            } else if sign.len() + d1.len() + 1 <= i < sign.len() + d1.len() + 1 + d2.len() {
                assert(t[i] == d2[i - sign.len() - d1.len() - 1]);
            }
        }
    }
    lemma_plain_text(t);
}

/// A leading `-` negates an amount: text read with a `-` in front gives
/// the negation of what it gives without (when it has no sign of its own),
/// `i64::MIN` staying `i64::MIN` as a wrapping negation leaves it.
pub proof fn lemma_amount_of_negation(t: Seq<char>)
    requires
        t.len() == 0 || (t[0] != '-' && t[0] != '+'),
    ensures
        amount_of(seq!['-'] + t) == match amount_of(t) {
            Some(x) => Some(if x == i64::MIN { i64::MIN } else { (-x) as i64 }),
            None => None::<i64>,
        },
{
    let n = seq!['-'] + t;
    assert(n[0] == '-');
    assert(n.drop_first() == t);
    assert(sign_split(n) == (-1int, t));
    if t.len() > 0 {
        assert(sign_split(t) == (1int, t));
        let (num, m) = suffix_split(t);
        match float_magnitude(without_commas(num), m) {
            Some((neg, r)) => {
                assert(amount_of(t) == Some(signed_amount(1, neg, r)));
                assert(amount_of(n) == Some(signed_amount(-1, neg, r)));
            },
            None => {},
        }
    } else {
        assert(t =~= Seq::<char>::empty());
        let (num, m) = suffix_split(t);
        let w = without_commas(num);
        assert(w =~= Seq::<char>::empty());
        assert(sign_split(w) == (1int, w));
        assert(w != seq!['i', 'n', 'f']);
        assert(w != seq!['i', 'n', 'f', 'i', 'n', 'i', 't', 'y']);
        assert(w != seq!['n', 'a', 'n']);
        assert(find_char(w, 'e') == 0);
        assert(w.take(0) =~= Seq::<char>::empty());
        assert(find_char(w.take(0), '.') == 0);
        assert(w.take(0).take(0) =~= Seq::<char>::empty());
        assert(decimal_parts(w.take(0)) is None);
        assert(float_magnitude(w, m) is None);
    }
}

/// A leading `+` changes nothing: text read with a `+` in front gives what
/// it gives without (when it has no sign of its own).
pub proof fn lemma_amount_of_plus(t: Seq<char>)
    requires
        t.len() == 0 || (t[0] != '-' && t[0] != '+'),
    ensures
        amount_of(seq!['+'] + t) == amount_of(t),
{
    let n = seq!['+'] + t;
    assert(n[0] == '+');
    assert(n.drop_first() == t);
    assert(sign_split(n) == (1int, t));
    if t.len() > 0 {
        assert(sign_split(t) == (1int, t));
    } else {
        assert(t =~= Seq::<char>::empty());
        let (num, m) = suffix_split(t);
        let w = without_commas(num);
        assert(w =~= Seq::<char>::empty());
        assert(sign_split(w) == (1int, w));
        assert(w != seq!['i', 'n', 'f']);
        assert(w != seq!['i', 'n', 'f', 'i', 'n', 'i', 't', 'y']);
        assert(w != seq!['n', 'a', 'n']);
        assert(find_char(w, 'e') == 0);
        assert(w.take(0) =~= Seq::<char>::empty());
        assert(find_char(w.take(0), '.') == 0);
        assert(w.take(0).take(0) =~= Seq::<char>::empty());
        assert(decimal_parts(w.take(0)) is None);
        assert(float_magnitude(w, m) is None);
    }
}

/// How `parse_abbrev` reads an ASCII amount is unchanged by white space
/// around it, by a leading `+` and by the case of its letters (such as a
/// `K`, `M` or `B` suffix), and a leading `-` negates it (`i64::MIN` staying
/// as it is): for each such form the trimmed text is ASCII, and the amounts
/// of the lower-cased texts, which `parse_abbrev` gives for ASCII text, are
/// related so.
pub proof fn lemma_abbrev_forms(s: Seq<char>, w1: Seq<char>, w2: Seq<char>)
    requires
        s.len() > 0,
        !is_white_space(s[0]),
        !is_white_space(s.last()),
        s[0] != '-' && s[0] != '+',
        all_ascii(s),
        forall|i: int| 0 <= i < w1.len() ==> is_white_space(#[trigger] w1[i]),
        forall|i: int| 0 <= i < w2.len() ==> is_white_space(#[trigger] w2[i]),
    ensures
        trimmed(w1 + s + w2) == s,
        trimmed(w1 + seq!['+'] + s + w2) == seq!['+'] + s,
        trimmed(w1 + seq!['-'] + s + w2) == seq!['-'] + s,
        trimmed(w1 + ascii_uppered(s) + w2) == ascii_uppered(s),
        all_ascii(seq!['+'] + s),
        all_ascii(seq!['-'] + s),
        all_ascii(ascii_uppered(s)),
        amount_of(ascii_lowered(seq!['+'] + s)) == amount_of(ascii_lowered(s)),
        amount_of(ascii_lowered(seq!['-'] + s)) == match amount_of(ascii_lowered(s)) {
            Some(x) => Some(if x == i64::MIN { i64::MIN } else { (-x) as i64 }),
            None => None::<i64>,
        },
        amount_of(ascii_lowered(ascii_uppered(s))) == amount_of(ascii_lowered(s)),
{
    let p = seq!['+'] + s;
    let q = seq!['-'] + s;
    let u = ascii_uppered(s);
    lemma_trimmed_around(w1, s, w2);
    assert(p[0] == '+' && p.last() == s.last());
    assert(w1 + seq!['+'] + s + w2 == w1 + p + w2);
    lemma_trimmed_around(w1, p, w2);
    assert(q[0] == '-' && q.last() == s.last());
    assert(w1 + seq!['-'] + s + w2 == w1 + q + w2);
    lemma_trimmed_around(w1, q, w2);
    assert(u[0] == ascii_upper(s[0]) && u.last() == ascii_upper(s.last()));
    lemma_trimmed_around(w1, u, w2);
    assert(all_ascii(p)) by {
        assert forall|i: int| 0 <= i < p.len() implies (#[trigger] p[i] as u32) < 128 by {
            if i > 0 {
                assert(p[i] == s[i - 1]);
            }
        }
    }
    assert(all_ascii(q)) by {
        assert forall|i: int| 0 <= i < q.len() implies (#[trigger] q[i] as u32) < 128 by {
            if i > 0 {
                assert(q[i] == s[i - 1]);
            }
        }
    }
    assert(all_ascii(u)) by {
        assert forall|i: int| 0 <= i < u.len() implies (#[trigger] u[i] as u32) < 128 by {
            assert(u[i] == ascii_upper(s[i]));
            assert((s[i] as u32) < 128);
        }
    }
    let t = ascii_lowered(s);
    assert(ascii_lowered(p) =~= seq!['+'] + t) by {
        assert forall|i: int| 0 <= i < p.len() implies #[trigger] ascii_lowered(p)[i] == (seq!['+'] + t)[i] by {
            if i > 0 {
                assert(p[i] == s[i - 1]);
            }
        }
    }
    assert(ascii_lowered(q) =~= seq!['-'] + t) by {
        assert forall|i: int| 0 <= i < q.len() implies #[trigger] ascii_lowered(q)[i] == (seq!['-'] + t)[i] by {
            if i > 0 {
                assert(q[i] == s[i - 1]);
            }
        }
    }
    assert(ascii_lowered(u) =~= t) by {
        assert forall|i: int| 0 <= i < s.len() implies #[trigger] ascii_lowered(u)[i] == t[i] by {
            let c = s[i];
            assert(u[i] == ascii_upper(c));
            if 'a' <= c && c <= 'z' {
                assert('A' <= ascii_upper(c) && ascii_upper(c) <= 'Z');
                assert(ascii_lower(ascii_upper(c)) == c);
            }
        }
    }
    assert(t[0] == ascii_lower(s[0]));
    lemma_amount_of_plus(t);
    lemma_amount_of_negation(t);
}

/// The decimal text of an integer reads back as that integer, for every
/// `i64` but `i64::MIN` (whose magnitude is clamped to `i64::MAX`). The text
/// is plain (ASCII, nothing to trim, already lower case), so `parse_abbrev`
/// reads it as `amount_of` does.
pub proof fn lemma_decimal_text_reads_back(n: i64)
    requires
        n > i64::MIN,
    ensures
        amount_of(signed_decimal(n as int)) == Some(n),
        all_ascii(signed_decimal(n as int)),
        trimmed(signed_decimal(n as int)) == signed_decimal(n as int),
        ascii_lowered(signed_decimal(n as int)) == signed_decimal(n as int),
{
    let neg = n < 0;
    let a = magnitude(n as int);
    let e = Seq::<char>::empty();
    lemma_decimal_digits(a);
    lemma_scaled_integer(a, 0);
    lemma_amount_of_numeral(neg, decimal(a), e, false, e, 0);
    let t = signed_decimal(n as int);
    assert(t == sign_text(neg) + decimal(a) + fraction_text(false, e) + e);
    assert(pow10(0) == 1);
    assert(scaled_magnitude(decimal(a), e, 0) == a * pow10(0));
    assert(a * pow10(0) == a) by (nonlinear_arith)
        requires
            pow10(0) == 1,
    ;
    assert(a <= amount_cap());
    assert(saturate(a) == a);
    assert((if neg { -1int } else { 1int }) * a == n as int);
    assert forall|i: int| 0 <= i < t.len() implies plain_char(#[trigger] t[i]) by {
        if i >= sign_text(neg).len() {
            assert(t[i] == decimal(a)[i - sign_text(neg).len()]);
        }
    }
    lemma_plain_text(t);
}

/// The compact text of a negative amount is that of its magnitude with a
/// leading `-`.
pub proof fn lemma_compact_text_negation(v: int)
    requires
        v > 0,
    ensures
        compact_text(-v) == seq!['-'] + compact_text(v),
{
    assert(magnitude(-v) == magnitude(v));
    let a = magnitude(v);
    let (unit, suffix) = unit_of(a);
    if a < 1000 {
        assert(Seq::<char>::empty() + decimal(a) == decimal(a));
    } else if a >= 100 * unit {
        let q = round_half_even(a, unit);
        assert(Seq::<char>::empty() + decimal(q) + suffix == decimal(q) + suffix);
        assert(seq!['-'] + decimal(q) + suffix == seq!['-'] + (decimal(q) + suffix));
    } else {
        let r = round_half_even(10 * a, unit);
        let tail = decimal(r / 10) + seq!['.'] + decimal(r % 10) + suffix;
        assert(Seq::<char>::empty() + decimal(r / 10) + seq!['.'] + decimal(r % 10) + suffix == tail);
        assert(seq!['-'] + decimal(r / 10) + seq!['.'] + decimal(r % 10) + suffix == seq!['-'] + tail);
    }
}

} // verus!
