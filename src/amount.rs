use vstd::prelude::*;
use vstd::string::*;

verus! {

/// Longest run of integer digits an amount may have.
pub const MAX_INT_DIGITS: usize = 12;

/// Most decimals an amount may have: amounts are counted in millionths.
pub const MAX_FRAC_DIGITS: usize = 6;

pub open spec fn is_digit(c: char) -> bool {
    '0' <= c && c <= '9'
}

pub open spec fn digits_only(s: Seq<char>) -> bool {
    forall|i: int| 0 <= i < s.len() ==> is_digit(#[trigger] s[i])
}

/// The number written in decimal digits `s`.
pub open spec fn digits_value(s: Seq<char>) -> int
    decreases s.len(),
{
    if s.len() == 0 {
        0
    } else {
        digits_value(s.drop_last()) * 10 + (s.last() as int - '0' as int)
    }
}

pub open spec fn pow10(n: nat) -> int
    decreases n,
{
    if n == 0 {
        1
    } else {
        10 * pow10((n - 1) as nat)
    }
}

/// `n` zero digits.
pub open spec fn zeros(n: nat) -> Seq<char> {
    Seq::new(n, |i: int| '0')
}

/// The value, in millionths, of an unsigned decimal `d+` or `d+.d+` with at
/// most `MAX_INT_DIGITS` integer digits and `MAX_FRAC_DIGITS` decimals: its
/// digits read as one number, padded to six decimals.
pub open spec fn unsigned_millionths(u: Seq<char>) -> Option<int> {
    if 0 < u.len() <= MAX_INT_DIGITS && digits_only(u) {
        Some(digits_value(u + zeros(6)))
    } else if exists|k: int| 0 < k <= MAX_INT_DIGITS && k + 2 <= u.len() <= k + 1 + MAX_FRAC_DIGITS && u[k] == '.'
        && digits_only(u.subrange(0, k)) && digits_only(u.subrange(k + 1, u.len() as int)) {
        let k = choose|k: int| 0 < k <= MAX_INT_DIGITS && k + 2 <= u.len() <= k + 1 + MAX_FRAC_DIGITS && u[k] == '.'
            && digits_only(u.subrange(0, k)) && digits_only(u.subrange(k + 1, u.len() as int));
        let f = u.subrange(k + 1, u.len() as int);
        Some(digits_value(u.subrange(0, k) + f + zeros((6 - f.len()) as nat)))
    } else {
        None
    }
}

/// The value, in millionths, of a decimal amount with an optional leading `-`.
pub open spec fn amount_millionths(s: Seq<char>) -> Option<int> {
    if s.len() > 0 && s[0] == '-' {
        match unsigned_millionths(s.drop_first()) {
            Some(v) => Some(-v),
            None => None,
        }
    } else {
        unsigned_millionths(s)
    }
}

proof fn lemma_digits_bound(s: Seq<char>)
    requires
        digits_only(s),
    ensures
        0 <= digits_value(s) < pow10(s.len()),
    decreases s.len(),
{
    if s.len() > 0 {
        let t = s.drop_last();
        assert forall|i: int| 0 <= i < t.len() implies is_digit(#[trigger] t[i]) by {
            assert(t[i] == s[i]);
        }
        lemma_digits_bound(t);
        assert(is_digit(s[s.len() - 1]));
    }
}

proof fn lemma_pow10_mono(a: nat, b: nat)
    requires
        a <= b,
    ensures
        pow10(a) <= pow10(b),
        pow10(a) >= 1,
    decreases b,
{
    if a < b {
        lemma_pow10_mono(a, (b - 1) as nat);
    } else if a > 0 {
        lemma_pow10_mono((a - 1) as nat, (a - 1) as nat);
    }
}

proof fn lemma_pow10_values()
    ensures
        pow10(17) == 100_000_000_000_000_000,
        pow10(18) == 1_000_000_000_000_000_000,
{
    reveal_with_fuel(pow10, 19);
}

/// Continues reading digits: `v` is the value of `prefix`, the result that of
/// `prefix` followed by `s[from..to]`.
fn append_digits(v: u64, Ghost(prefix): Ghost<Seq<char>>, s: &str, from: usize, to: usize) -> (r: u64)
    requires
        v == digits_value(prefix),
        digits_only(prefix),
        from <= to <= s@.len(),
        digits_only(s@.subrange(from as int, to as int)),
        prefix.len() + (to - from) <= 18,
    ensures
        r == digits_value(prefix + s@.subrange(from as int, to as int)),
{
    let mut v = v;
    let mut i: usize = from;
    proof {
        lemma_pow10_values();
        assert(prefix + s@.subrange(from as int, from as int) =~= prefix);
    }
    while i < to
        invariant
            from <= i <= to,
            to <= s@.len(),
            prefix.len() + (to - from) <= 18,
            digits_only(prefix),
            digits_only(s@.subrange(from as int, to as int)),
            v == digits_value(prefix + s@.subrange(from as int, i as int)),
            pow10(17) == 100_000_000_000_000_000,
        decreases to - i,
    {
        let c = s.get_char(i);
        let ghost pre = prefix + s@.subrange(from as int, i as int);
        let ghost next = prefix + s@.subrange(from as int, i + 1);
        proof {
            assert(next.drop_last() =~= pre);
            assert(next.last() == c);
            assert(c == s@.subrange(from as int, to as int)[i - from]);
            assert forall|j: int| 0 <= j < pre.len() implies is_digit(#[trigger] pre[j]) by {
                if j >= prefix.len() {
                    assert(pre[j] == s@.subrange(from as int, to as int)[j - prefix.len()]);
                }
            }
            lemma_digits_bound(pre);
            lemma_pow10_mono(pre.len(), 17);
        }
        v = v * 10 + (c as u64 - '0' as u64);
        i += 1;
    }
    v
}

/// Appends `n` zero digits: `v` is the value of `prefix`.
fn pad_zeros(v: u64, Ghost(prefix): Ghost<Seq<char>>, n: usize) -> (r: u64)
    requires
        v == digits_value(prefix),
        digits_only(prefix),
        prefix.len() + n <= 18,
    ensures
        r == digits_value(prefix + zeros(n as nat)),
{
    let mut v = v;
    let mut j: usize = 0;
    proof {
        lemma_pow10_values();
        assert(prefix + zeros(0) =~= prefix);
    }
    while j < n
        invariant
            j <= n,
            prefix.len() + n <= 18,
            digits_only(prefix),
            v == digits_value(prefix + zeros(j as nat)),
            pow10(17) == 100_000_000_000_000_000,
        decreases n - j,
    {
        let ghost pre = prefix + zeros(j as nat);
        let ghost next = prefix + zeros((j + 1) as nat);
        proof {
            assert(next.drop_last() =~= pre);
            assert(next.last() == '0');
            assert forall|m: int| 0 <= m < pre.len() implies is_digit(#[trigger] pre[m]) by {}
            lemma_digits_bound(pre);
            lemma_pow10_mono(pre.len(), 17);
        }
        v = v * 10;
        j += 1;
    }
    v
}

/// Whether `s[from..to]` holds digits only.
fn all_digits(s: &str, from: usize, to: usize) -> (r: bool)
    requires
        from <= to <= s@.len(),
    ensures
        r == digits_only(s@.subrange(from as int, to as int)),
{
    let mut j: usize = from;
    while j < to
        invariant
            from <= j <= to,
            to <= s@.len(),
            digits_only(s@.subrange(from as int, j as int)),
        decreases to - j,
    {
        let c = s.get_char(j);
        if !('0' <= c && c <= '9') {
            proof {
                assert(s@.subrange(from as int, to as int)[j - from] == c);
            }
            return false;
        }
        proof {
            assert forall|m: int| 0 <= m < j + 1 - from implies is_digit(#[trigger] s@.subrange(from as int, j + 1)[m]) by {
                if m < j - from {
                    assert(s@.subrange(from as int, j + 1)[m] == s@.subrange(from as int, j as int)[m]);
                }
            }
        }
        j += 1;
    }
    true
}

/// Reads an unsigned decimal amount as a count of millionths.
fn parse_unsigned(u: &str) -> (r: Option<u64>)
    ensures
        r is Some <==> unsigned_millionths(u@) is Some,
        r matches Some(v) ==> unsigned_millionths(u@) == Some(v as int) && v < 1_000_000_000_000_000_000,
{
    let n = u.unicode_len();
    let mut k: usize = 0;
    while k < n && '0' <= u.get_char(k) && u.get_char(k) <= '9'
        invariant
            k <= n,
            n == u@.len(),
            digits_only(u@.subrange(0, k as int)),
        decreases n - k,
    {
        proof {
            assert forall|j: int| 0 <= j < k + 1 implies is_digit(#[trigger] u@.subrange(0, k + 1)[j]) by {
                if j < k {
                    assert(u@.subrange(0, k + 1)[j] == u@.subrange(0, k as int)[j]);
                }
            }
        }
        k += 1;
    }
    let ghost us = u@;
    let ghost int_part = us.subrange(0, k as int);
    // every candidate position for the point is `k`
    proof {
        assert forall|k2: int| 0 < k2 <= MAX_INT_DIGITS && k2 + 2 <= us.len() <= k2 + 1 + MAX_FRAC_DIGITS && us[k2] == '.'
            && digits_only(us.subrange(0, k2)) implies k2 == k by {
            if k2 < k {
                assert(us.subrange(0, k as int)[k2] == us[k2]);
            } else if k2 > k {
                assert(us.subrange(0, k2)[k as int] == us[k as int]);
            }
        }
    }
    if k == 0 || k > MAX_INT_DIGITS {
        proof {
            if 0 < n && n <= MAX_INT_DIGITS && digits_only(us) {
                assert(is_digit(us[k as int]));
            }
        }
        return None;
    }
    proof {
        lemma_pow10_values();
        assert(Seq::<char>::empty() + int_part =~= int_part);
        assert forall|j: int| 0 <= j < 0 implies is_digit(#[trigger] Seq::<char>::empty()[j]) by {}
    }
    let whole = append_digits(0, Ghost(Seq::<char>::empty()), u, 0, k);
    if k == n {
        proof {
            assert(int_part =~= us);
        }
        let v = pad_zeros(whole, Ghost(int_part), 6);
        proof {
            let w = int_part + zeros(6);
            assert forall|m: int| 0 <= m < w.len() implies is_digit(#[trigger] w[m]) by {
                if m < int_part.len() {
                    assert(w[m] == int_part[m]);
                }
            }
            lemma_digits_bound(w);
            lemma_pow10_mono(w.len(), 18);
        }
        return Some(v);
    }
    if u.get_char(k) != '.' {
        return None;
    }
    let flen = n - k - 1;
    if flen < 1 || flen > MAX_FRAC_DIGITS {
        proof {
            if 0 < n && n <= MAX_INT_DIGITS && digits_only(us) {
                assert(is_digit(us[k as int]));
            }
        }
        return None;
    }
    if !all_digits(u, k + 1, n) {
        proof {
            if 0 < n && n <= MAX_INT_DIGITS && digits_only(us) {
                assert(is_digit(us[k as int]));
            }
        }
        return None;
    }
    let ghost frac = us.subrange(k + 1, n as int);
    proof {
        assert(Seq::<char>::empty() + int_part =~= int_part);
    }
    let with_frac = append_digits(whole, Ghost(int_part), u, k + 1, n);
    proof {
        assert forall|m: int| 0 <= m < (int_part + frac).len() implies is_digit(#[trigger] (int_part + frac)[m]) by {
            if m < int_part.len() {
                assert((int_part + frac)[m] == int_part[m]);
            } else {
                assert((int_part + frac)[m] == frac[m - int_part.len()]);
            }
        }
    }
    let v = pad_zeros(with_frac, Ghost(int_part + frac), 6 - flen);
    proof {
        let w = int_part + frac + zeros((6 - flen) as nat);
        assert forall|m: int| 0 <= m < w.len() implies is_digit(#[trigger] w[m]) by {
            if m < int_part.len() + frac.len() {
                assert(w[m] == (int_part + frac)[m]);
            }
        }
        lemma_digits_bound(w);
        lemma_pow10_mono(w.len(), 18);
        assert(!digits_only(us)) by {
            assert(!is_digit(us[k as int]));
        }
        assert(0 < k <= MAX_INT_DIGITS && k + 2 <= us.len() <= k + 1 + MAX_FRAC_DIGITS && us[k as int] == '.'
            && digits_only(us.subrange(0, k as int)) && digits_only(us.subrange(k + 1, us.len() as int)));
    }
    Some(v)
}

/// Reads a decimal amount such as `-24.25` as a count of millionths.
pub fn parse_millionths(s: &str) -> (r: Option<i64>)
    ensures
        r is Some <==> amount_millionths(s@) is Some,
        r matches Some(v) ==> amount_millionths(s@) == Some(v as int),
{
    let n = s.unicode_len();
    if n > 0 && s.get_char(0) == '-' {
        let u = s.substring_char(1, n);
        proof {
            assert(u@ =~= s@.drop_first());
        }
        match parse_unsigned(u) {
            Some(v) => Some(-(v as i64)),
            None => None,
        }
    } else {
        match parse_unsigned(s) {
            Some(v) => Some(v as i64),
            None => None,
        }
    }
}

} // verus!
