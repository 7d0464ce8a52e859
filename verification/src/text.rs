//! Byte-level text helpers.
//!
//! The library treats all text as UTF-8 bytes (`Vec<u8>` / `&[u8]`): the
//! diagnostic stream, manifest contents, names and rendered cells.  This
//! module holds the small verified scanning and formatting routines that the
//! rest of the crate builds on: leading-run measurement, prefix and substring
//! search, byte copying, and decimal rendering.

use vstd::prelude::*;

verus! {

/// Horizontal whitespace, as the diagnostic patterns understand it.
pub open spec fn is_space(b: u8) -> bool {
    b == 32 || b == 9
}

/// Length of the longest prefix of `s` whose bytes all satisfy `p`.
pub open spec fn run_len(s: Seq<u8>, p: spec_fn(u8) -> bool) -> int
    decreases s.len(),
{
    if s.len() > 0 && p(s[0]) {
        1 + run_len(s.skip(1), p)
    } else {
        0
    }
}

/// `run_len` yields the unique cut point: everything before it satisfies
/// `p`, and the byte at it (if any) does not.
pub proof fn lemma_run_len(s: Seq<u8>, p: spec_fn(u8) -> bool)
    ensures
        0 <= run_len(s, p) <= s.len(),
        forall|i: int| 0 <= i < run_len(s, p) ==> p(s[i]),
        run_len(s, p) < s.len() ==> !p(s[run_len(s, p)]),
    decreases s.len(),
{
    if s.len() > 0 && p(s[0]) {
        lemma_run_len(s.skip(1), p);
        assert forall|i: int| 0 <= i < run_len(s, p) implies p(s[i]) by {
            if i > 0 {
                assert(p(s.skip(1)[i - 1]));
            }
        }
        if run_len(s, p) < s.len() {
            assert(!p(s.skip(1)[run_len(s, p) - 1]));
        }
    }
}

/// Any cut point with the properties of `lemma_run_len` is `run_len`.
pub proof fn lemma_run_len_unique(s: Seq<u8>, p: spec_fn(u8) -> bool, n: int)
    requires
        0 <= n <= s.len(),
        forall|i: int| 0 <= i < n ==> p(s[i]),
        n < s.len() ==> !p(s[n]),
    ensures
        n == run_len(s, p),
    decreases s.len(),
{
    if s.len() > 0 && p(s[0]) {
        assert(n > 0);
        lemma_run_len_unique(s.skip(1), p, n - 1);
    }
}

/// Length of the leading whitespace of the suffix of `s` that starts at `from`.
pub fn space_run(s: &[u8], from: usize) -> (n: usize)
    requires
        from <= s@.len(),
    ensures
        n == run_len(s@.skip(from as int), |b: u8| is_space(b)),
        from + n <= s@.len(),
{
    let mut i: usize = from;
    while i < s.len() && (s[i] == 32 || s[i] == 9)
        invariant
            from <= i <= s@.len(),
            forall|j: int| from <= j < i ==> is_space(s@[j]),
        decreases s@.len() - i,
    {
        i = i + 1;
    }
    proof {
        let suffix = s@.skip(from as int);
        lemma_run_len_unique(suffix, |b: u8| is_space(b), i - from);
    }
    i - from
}

/// Length of the leading non-whitespace token of the suffix of `s` that
/// starts at `from`.
pub fn token_run(s: &[u8], from: usize) -> (n: usize)
    requires
        from <= s@.len(),
    ensures
        n == run_len(s@.skip(from as int), |b: u8| !is_space(b)),
        from + n <= s@.len(),
{
    let mut i: usize = from;
    while i < s.len() && s[i] != 32 && s[i] != 9
        invariant
            from <= i <= s@.len(),
            forall|j: int| from <= j < i ==> !is_space(s@[j]),
        decreases s@.len() - i,
    {
        i = i + 1;
    }
    proof {
        let suffix = s@.skip(from as int);
        lemma_run_len_unique(suffix, |b: u8| !is_space(b), i - from);
    }
    i - from
}

/// `pat` occurs in `s` at position `i`.
pub open spec fn match_at(s: Seq<u8>, pat: Seq<u8>, i: int) -> bool {
    &&& 0 <= i
    &&& i + pat.len() <= s.len()
    &&& s.subrange(i, i + pat.len() as int) == pat
}

/// Whether `pat` occurs in `s` at position `i`.
pub fn starts_with_at(s: &[u8], i: usize, pat: &[u8]) -> (r: bool)
    requires
        i <= s@.len(),
    ensures
        r <==> match_at(s@, pat@, i as int),
{
    if s.len() - i < pat.len() {
        return false;
    }
    let mut j: usize = 0;
    while j < pat.len()
        invariant
            0 <= j <= pat@.len(),
            i + pat@.len() <= s@.len(),
            s@.len() <= usize::MAX,
            forall|k: int| 0 <= k < j ==> s@[i + k] == pat@[k],
        decreases pat@.len() - j,
    {
        if s[i + j] != pat[j] {
            assert(s@.subrange(i as int, i + pat@.len() as int)[j as int] != pat@[j as int]);
            return false;
        }
        j = j + 1;
    }
    proof {
        assert(s@.subrange(i as int, i + pat@.len() as int) =~= pat@);
    }
    true
}

/// Index of the first occurrence of `pat` in `s` at or after `from`.
pub open spec fn first_match_from(s: Seq<u8>, pat: Seq<u8>, from: int) -> Option<int>
    decreases s.len() - from + 1,
{
    if from < 0 || from + pat.len() > s.len() {
        None
    } else if match_at(s, pat, from) {
        Some(from)
    } else {
        first_match_from(s, pat, from + 1)
    }
}

/// First occurrence of `pat` in `s` at or after `from`.
pub fn find_from(s: &[u8], from: usize, pat: &[u8]) -> (r: Option<usize>)
    requires
        from <= s@.len(),
    ensures
        match r {
            Some(k) => first_match_from(s@, pat@, from as int) == Some(k as int),
            None => first_match_from(s@, pat@, from as int) is None,
        },
{
    let mut i: usize = from;
    loop
        invariant
            from <= i <= s@.len() + 1,
            first_match_from(s@, pat@, from as int) == first_match_from(s@, pat@, i as int),
        decreases s@.len() + 1 - i,
    {
        if pat.len() > s.len() || i > s.len() - pat.len() {
            return None;
        }
        proof {
            if pat@.len() == 0 {
                assert(s@.subrange(i as int, i as int) =~= pat@);
            }
        }
        if starts_with_at(s, i, pat) {
            return Some(i);
        }
        i = i + 1;
    }
}

/// A found first match is a match, and not before `from`.
pub proof fn lemma_first_match_valid(s: Seq<u8>, pat: Seq<u8>, from: int)
    ensures
        match first_match_from(s, pat, from) {
            Some(k) => match_at(s, pat, k) && from <= k,
            None => true,
        },
    decreases s.len() - from + 1,
{
    if from >= 0 && from + pat.len() <= s.len() && !match_at(s, pat, from) {
        lemma_first_match_valid(s, pat, from + 1);
    }
}

/// A copy of `s[i..j]` as a fresh vector.
pub fn copy_range(s: &[u8], i: usize, j: usize) -> (v: Vec<u8>)
    requires
        i <= j <= s@.len(),
    ensures
        v@ == s@.subrange(i as int, j as int),
{
    vstd::slice::slice_to_vec(vstd::slice::slice_subrange(s, i, j))
}

/// Appends `pat` to `out`.
pub fn append_bytes(out: &mut Vec<u8>, pat: &[u8])
    ensures
        final(out)@ == old(out)@ + pat@,
{
    let mut j: usize = 0;
    while j < pat.len()
        invariant
            0 <= j <= pat@.len(),
            out@ == old(out)@ + pat@.subrange(0, j as int),
        decreases pat@.len() - j,
    {
        out.push(pat[j]);
        proof {
            assert(old(out)@ + pat@.subrange(0, j as int) + seq![pat@[j as int]] =~= old(
                out,
            )@ + pat@.subrange(0, j + 1));
        }
        j = j + 1;
    }
    proof {
        assert(pat@.subrange(0, pat@.len() as int) =~= pat@);
    }
}

/// `b` is an ASCII decimal digit.
pub open spec fn is_digit(b: u8) -> bool {
    48 <= b <= 57
}

/// The numeric value of a string of decimal digits, most significant first.
/// Bytes outside the digit range contribute garbage; callers only apply this
/// to sequences of digits.
pub open spec fn dec_val(s: Seq<u8>) -> int
    decreases s.len(),
{
    if s.len() == 0 {
        0
    } else {
        dec_val(s.drop_last()) * 10 + (s.last() - 48)
    }
}

/// All bytes of `s` are ASCII decimal digits.
pub open spec fn all_digits(s: Seq<u8>) -> bool {
    forall|i: int| 0 <= i < s.len() ==> is_digit(#[trigger] s[i])
}

/// The tenth power with exponent `k`.
pub open spec fn pow10(k: nat) -> int
    decreases k,
{
    if k == 0 {
        1
    } else {
        10 * pow10((k - 1) as nat)
    }
}

/// Tenth powers are positive.
pub proof fn lemma_pow10_pos(k: nat)
    ensures
        pow10(k) >= 1,
    decreases k,
{
    if k > 0 {
        lemma_pow10_pos((k - 1) as nat);
    }
}

pub proof fn lemma_pow10_add(a: nat, b: nat)
    ensures
        pow10(a) * pow10(b) == pow10(a + b),
    decreases a,
{
    if a == 0 {
        assert(pow10(0) * pow10(b) == pow10(b));
    } else {
        lemma_pow10_add((a - 1) as nat, b);
        assert(pow10(a) * pow10(b) == 10 * pow10((a - 1) as nat) * pow10(b));
        assert(10 * pow10((a - 1) as nat) * pow10(b) == 10 * (pow10((a - 1) as nat) * pow10(b)))
            by (nonlinear_arith);
    }
}

/// A digit string's value is bounded by the tenth power of its length.
pub proof fn lemma_dec_val_bounds(s: Seq<u8>)
    requires
        all_digits(s),
    ensures
        0 <= dec_val(s) < pow10(s.len()),
    decreases s.len(),
{
    if s.len() > 0 {
        assert(all_digits(s.drop_last()));
        lemma_dec_val_bounds(s.drop_last());
        assert(is_digit(s.last()));
        assert(dec_val(s.drop_last()) * 10 <= (pow10((s.len() - 1) as nat) - 1) * 10)
            by (nonlinear_arith)
            requires
                0 <= dec_val(s.drop_last()) <= pow10((s.len() - 1) as nat) - 1,
        ;
    }
}

/// Extending a digit string to the right can only grow its value.
pub proof fn lemma_dec_val_prefix_le(s: Seq<u8>, i: int)
    requires
        all_digits(s),
        0 <= i <= s.len(),
    ensures
        dec_val(s.take(i)) <= dec_val(s),
    decreases s.len(),
{
    if i < s.len() {
        assert(all_digits(s.drop_last()));
        assert(s.take(i) =~= s.drop_last().take(i));
        lemma_dec_val_prefix_le(s.drop_last(), i);
        lemma_dec_val_bounds(s.drop_last());
        assert(is_digit(s.last()));
        assert(dec_val(s.drop_last()) <= dec_val(s.drop_last()) * 10) by (nonlinear_arith)
            requires
                0 <= dec_val(s.drop_last()),
        ;
    } else {
        assert(s.take(i) =~= s);
    }
}

/// The decimal rendering of `n`, without leading zeroes (a single `0` for 0).
pub open spec fn dec_digits(n: nat) -> Seq<u8>
    decreases n,
{
    if n < 10 {
        seq![(n + 48) as u8]
    } else {
        dec_digits(n / 10).push((n % 10 + 48) as u8)
    }
}

/// The decimal rendering of `n` as bytes.
pub fn fmt_u128(n: u128) -> (v: Vec<u8>)
    ensures
        v@ == dec_digits(n as nat),
{
    let mut rev: Vec<u8> = Vec::new();
    let mut m: u128 = n;
    while m >= 10
        invariant
            dec_digits(n as nat) =~= dec_digits(m as nat) + rev@.reverse(),
        decreases m,
    {
        let d: u8 = (m % 10) as u8 + 48;
        proof {
            assert(rev@.push(d).reverse() =~= seq![d] + rev@.reverse());
            assert(dec_digits(m as nat) =~= dec_digits((m as nat) / 10).push(d));
            assert(dec_digits((m as nat) / 10).push(d) + rev@.reverse() =~= dec_digits(
                (m as nat) / 10,
            ) + (seq![d] + rev@.reverse()));
        }
        rev.push(d);
        m = m / 10;
    }
    let mut v: Vec<u8> = Vec::new();
    v.push(m as u8 + 48);
    proof {
        assert(dec_digits(m as nat) =~= seq![(m + 48) as u8]);
        assert(v@ =~= dec_digits(m as nat));
    }
    while rev.len() > 0
        invariant
            dec_digits(n as nat) =~= v@ + rev@.reverse(),
        decreases rev@.len(),
    {
        proof {
            assert(rev@.drop_last().push(rev@.last()).reverse() =~= seq![rev@.last()]
                + rev@.drop_last().reverse());
            assert(rev@.drop_last().push(rev@.last()) =~= rev@);
        }
        let b = rev.pop().unwrap();
        v.push(b);
        proof {
            assert(v@ + rev@.reverse() =~= dec_digits(n as nat));
        }
    }
    proof {
        assert(v@ =~= dec_digits(n as nat));
    }
    v
}

/// Length of the leading digit run of the suffix of `s` that starts at
/// `from`.
pub fn digit_run(s: &[u8], from: usize) -> (n: usize)
    requires
        from <= s@.len(),
    ensures
        n == run_len(s@.skip(from as int), |b: u8| is_digit(b)),
        from + n <= s@.len(),
{
    let mut i: usize = from;
    while i < s.len() && 48 <= s[i] && s[i] <= 57
        invariant
            from <= i <= s@.len(),
            forall|j: int| from <= j < i ==> is_digit(s@[j]),
        decreases s@.len() - i,
    {
        i = i + 1;
    }
    proof {
        let suffix = s@.skip(from as int);
        lemma_run_len_unique(suffix, |b: u8| is_digit(b), i - from);
    }
    i - from
}

/// Whether two byte slices hold the same bytes.
pub fn slices_eq(a: &[u8], b: &[u8]) -> (r: bool)
    ensures
        r <==> a@ == b@,
{
    if a.len() != b.len() {
        return false;
    }
    let mut i: usize = 0;
    while i < a.len()
        invariant
            0 <= i <= a@.len(),
            a@.len() == b@.len(),
            forall|j: int| 0 <= j < i ==> a@[j] == b@[j],
        decreases a@.len() - i,
    {
        if a[i] != b[i] {
            return false;
        }
        i = i + 1;
    }
    proof {
        assert(a@ =~= b@);
    }
    true
}

/// Whether two strings hold the same characters.
pub fn str_eq(a: &str, b: &str) -> (r: bool)
    ensures
        r <==> a@ == b@,
{
    let n = a.unicode_len();
    if n != b.unicode_len() {
        return false;
    }
    let mut i: usize = 0;
    while i < n
        invariant
            0 <= i <= n,
            n == a@.len(),
            n == b@.len(),
            forall|j: int| 0 <= j < i ==> a@[j] == b@[j],
        decreases n - i,
    {
        if a.get_char(i) != b.get_char(i) {
            return false;
        }
        i = i + 1;
    }
    proof {
        assert(a@ =~= b@);
    }
    true
}

/// The decimal rendering of `n` as bytes.
pub fn fmt_u32(n: u32) -> (v: Vec<u8>)
    ensures
        v@ == dec_digits(n as nat),
{
    fmt_u128(n as u128)
}

} // verus!
