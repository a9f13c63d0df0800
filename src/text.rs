//! Byte-level text helpers shared by the parsers: splitting on a separator
//! and decimal numbers.
use vstd::prelude::*;

verus! {

/// The segments of `t` between occurrences of `sep`; always at least one
/// segment (`"a:b:"` gives `"a"`, `"b"` and `""`).
pub open spec fn split<A>(t: Seq<A>, sep: A) -> Seq<Seq<A>>
    decreases t.len(),
{
    if t.len() == 0 {
        seq![Seq::<A>::empty()]
    } else {
        let r = split(t.drop_last(), sep);
        if t.last() == sep {
            r.push(Seq::<A>::empty())
        } else {
            r.update(r.len() - 1, r.last().push(t.last()))
        }
    }
}

pub proof fn lemma_split_nonempty<A>(t: Seq<A>, sep: A)
    ensures
        split(t, sep).len() >= 1,
    decreases t.len(),
{
    if t.len() > 0 {
        lemma_split_nonempty(t.drop_last(), sep);
    }
}

pub open spec fn views(v: Seq<Vec<u8>>) -> Seq<Seq<u8>> {
    v.map_values(|x: Vec<u8>| x@)
}

/// Splits `t` at every `sep`.
pub fn split_bytes(t: &[u8], sep: u8) -> (r: Vec<Vec<u8>>)
    ensures
        views(r@) == split(t@, sep),
{
    let mut out: Vec<Vec<u8>> = Vec::new();
    let mut cur: Vec<u8> = Vec::new();
    let mut i: usize = 0;
    while i < t.len()
        invariant
            i <= t@.len(),
            views(out@).push(cur@) == split(t@.take(i as int), sep),
        decreases t@.len() - i,
    {
        let ghost prev = t@.take(i as int);
        assert(t@.take(i as int + 1).drop_last() == prev);
        proof { lemma_split_nonempty(prev, sep); }
        if t[i] == sep {
            let ghost old_out = out@;
            let ghost old_cur = cur@;
            out.push(cur);
            cur = Vec::new();
            assert(views(out@) =~= views(old_out).push(old_cur));
            assert(views(out@).push(cur@) =~= split(t@.take(i as int + 1), sep));
        } else {
            let ghost old_cur = cur@;
            cur.push(t[i]);
            assert(views(out@).push(cur@) =~= split(t@.take(i as int + 1), sep));
        }
        i = i + 1;
    }
    assert(t@.take(i as int) == t@);
    out.push(cur);
    out
}

pub open spec fn is_digit(b: u8) -> bool {
    48 <= b && b <= 57
}

/// `[A-Za-z0-9]`.
pub open spec fn is_alnum(b: u8) -> bool {
    is_digit(b) || (65 <= b && b <= 90) || (97 <= b && b <= 122)
}

pub open spec fn all_digits(d: Seq<u8>) -> bool {
    forall|k: int| 0 <= k < d.len() ==> is_digit(#[trigger] d[k])
}

/// The value of a string of decimal digits.
pub open spec fn dec_val(d: Seq<u8>) -> int
    decreases d.len(),
{
    if d.len() == 0 {
        0
    } else {
        dec_val(d.drop_last()) * 10 + (d.last() - 48)
    }
}

/// A non-empty run of decimal digits whose value fits in a `u32`.
pub open spec fn decimal_u32(d: Seq<u8>) -> Option<u32> {
    if d.len() > 0 && all_digits(d) && dec_val(d) <= u32::MAX {
        Some(dec_val(d) as u32)
    } else {
        None
    }
}

proof fn lemma_dec_val_nonneg(d: Seq<u8>)
    requires
        all_digits(d),
    ensures
        dec_val(d) >= 0,
    decreases d.len(),
{
    if d.len() > 0 {
        assert(all_digits(d.drop_last())) by {
            assert forall|k: int| 0 <= k < d.drop_last().len() implies is_digit(
                #[trigger] d.drop_last()[k],
            ) by {
                assert(d.drop_last()[k] == d[k]);
            }
        }
        lemma_dec_val_nonneg(d.drop_last());
    }
}

/// Reads a decimal `u32` the way `u32::from_str` reads a run of digits.
pub fn parse_decimal_u32(d: &[u8]) -> (r: Option<u32>)
    ensures
        r == decimal_u32(d@),
{
    if d.len() == 0 {
        return None;
    }
    let mut acc: u64 = 0;
    let mut big = false;
    let mut i: usize = 0;
    while i < d.len()
        invariant
            i <= d@.len(),
            all_digits(d@.take(i as int)),
            big ==> dec_val(d@.take(i as int)) > u32::MAX,
            !big ==> acc == dec_val(d@.take(i as int)) && acc <= u32::MAX,
        decreases d@.len() - i,
    {
        let b = d[i];
        assert(d@.take(i as int + 1).drop_last() == d@.take(i as int));
        if b < 48 || b > 57 {
            assert(!all_digits(d@)) by {
                assert(!is_digit(d@[i as int]));
            }
            return None;
        }
        proof {
            lemma_dec_val_nonneg(d@.take(i as int));
        }
        if !big {
            acc = acc * 10 + (b - 48) as u64;
            if acc > 4294967295 {
                big = true;
            }
        }
        assert(all_digits(d@.take(i as int + 1))) by {
            assert forall|k: int| 0 <= k < i + 1 implies is_digit(
                #[trigger] d@.take(i as int + 1)[k],
            ) by {
                if k < i {
                    assert(d@.take(i as int + 1)[k] == d@.take(i as int)[k]);
                }
            }
        }
        i = i + 1;
    }
    assert(d@.take(i as int) == d@);
    if big {
        None
    } else {
        Some(acc as u32)
    }
}

/// Length of the longest run of `[A-Za-z0-9]` in `t` starting at `start`.
pub open spec fn alnum_run(t: Seq<u8>, start: int) -> int
    decreases t.len() - start,
{
    if 0 <= start < t.len() && is_alnum(t[start]) {
        1 + alnum_run(t, start + 1)
    } else {
        0
    }
}

/// Measures the run of `[A-Za-z0-9]` that starts at `start`.
pub fn alnum_run_len(t: &[u8], start: usize) -> (n: usize)
    requires
        start <= t@.len(),
    ensures
        n == alnum_run(t@, start as int),
        start + n <= t@.len(),
{
    let mut i: usize = start;
    while i < t.len() && (is_alnum_byte(t[i]))
        invariant
            start <= i <= t@.len(),
            alnum_run(t@, start as int) == (i - start) + alnum_run(t@, i as int),
        decreases t@.len() - i,
    {
        i = i + 1;
    }
    i - start
}

pub fn is_alnum_byte(b: u8) -> (r: bool)
    ensures
        r == is_alnum(b),
{
    (48 <= b && b <= 57) || (65 <= b && b <= 90) || (97 <= b && b <= 122)
}

/// A fresh vector holding the bytes of `s`.
pub fn copy_bytes(s: &[u8]) -> (r: Vec<u8>)
    ensures
        r@ == s@,
{
    let mut r: Vec<u8> = Vec::new();
    let mut i: usize = 0;
    while i < s.len()
        invariant
            i <= s@.len(),
            r@ == s@.take(i as int),
        decreases s@.len() - i,
    {
        r.push(s[i]);
        assert(r@ =~= s@.take(i as int + 1));
        i = i + 1;
    }
    assert(s@.take(i as int) =~= s@);
    r
}

/// Byte-wise equality.
pub fn bytes_eq(a: &[u8], b: &[u8]) -> (r: bool)
    ensures
        r == (a@ == b@),
{
    if a.len() != b.len() {
        return false;
    }
    let mut i: usize = 0;
    while i < a.len()
        invariant
            i <= a@.len(),
            a@.len() == b@.len(),
            a@.take(i as int) == b@.take(i as int),
        decreases a@.len() - i,
    {
        if a[i] != b[i] {
            return false;
        }
        assert(a@.take(i as int + 1) =~= a@.take(i as int).push(a@[i as int]));
        assert(b@.take(i as int + 1) =~= b@.take(i as int).push(b@[i as int]));
        i = i + 1;
    }
    assert(a@.take(i as int) =~= a@);
    assert(b@.take(i as int) =~= b@);
    true
}

/// A run of `k` alphanumerics at `start` followed by the end or by another
/// byte measures exactly `k`.
pub proof fn lemma_alnum_run_exact(t: Seq<u8>, start: int, k: int)
    requires
        0 <= start,
        0 <= k,
        start + k <= t.len(),
        forall|j: int| start <= j < start + k ==> is_alnum(#[trigger] t[j]),
        start + k == t.len() || !is_alnum(t[start + k]),
    ensures
        alnum_run(t, start) == k,
    decreases k,
{
    if k > 0 {
        lemma_alnum_run_exact(t, start + 1, k - 1);
    }
}

/// Appends the bytes of `s` to `v`.
pub fn extend_bytes(v: &mut Vec<u8>, s: &[u8])
    ensures
        final(v)@ == old(v)@ + s@,
{
    let ghost v0 = v@;
    let mut i: usize = 0;
    while i < s.len()
        invariant
            i <= s@.len(),
            v@ == v0 + s@.take(i as int),
        decreases s@.len() - i,
    {
        v.push(s[i]);
        assert(v@ =~= v0 + s@.take(i as int + 1));
        i = i + 1;
    }
    assert(s@.take(i as int) =~= s@);
}

} // verus!
