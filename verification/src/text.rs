//! Verified byte-level text utilities shared by the probe output parsers.
//!
//! The probe tools emit ad hoc line-oriented text; every parser in this crate
//! works on the UTF-8 bytes of that text, so the scanning primitives here are
//! specified over `Seq<u8>`.

use vstd::prelude::*;

verus! {

/// `n` occurs in `h` at position `i`.
pub open spec fn matches_at(h: Seq<u8>, n: Seq<u8>, i: int) -> bool {
    0 <= i && i + n.len() <= h.len() && h.subrange(i, i + n.len()) == n
}

/// `n` occurs somewhere in `h`.
pub open spec fn has_match(h: Seq<u8>, n: Seq<u8>) -> bool {
    exists|i: int| matches_at(h, n, i)
}

/// The first position at or after `i` where `n` occurs in `h`.
pub open spec fn first_match_from(h: Seq<u8>, n: Seq<u8>, i: int) -> Option<int>
    decreases h.len() - i,
{
    if i < 0 || i + n.len() > h.len() {
        None
    } else if n.len() == 0 || h.subrange(i, i + n.len()) == n {
        Some(i)
    } else {
        first_match_from(h, n, i + 1)
    }
}

pub proof fn lemma_first_match_from(h: Seq<u8>, n: Seq<u8>, i: int)
    requires
        0 <= i,
    ensures
        match first_match_from(h, n, i) {
            Some(j) => i <= j && matches_at(h, n, j) && forall|k: int|
                i <= k < j ==> !matches_at(h, n, k),
            None => forall|k: int| i <= k ==> !matches_at(h, n, k),
        },
    decreases h.len() - i,
{
    if i + n.len() > h.len() {
    } else if n.len() == 0 {
        assert(h.subrange(i, i + n.len()) =~= n);
    } else if h.subrange(i, i + n.len()) == n {
    } else {
        lemma_first_match_from(h, n, i + 1);
    }
}

/// Compares `n` against the bytes of `h` starting at `i`.
pub fn eq_at(h: &[u8], n: &[u8], i: usize) -> (r: bool)
    requires
        i + n@.len() <= h@.len(),
    ensures
        r == (h@.subrange(i as int, i as int + n@.len() as int) == n@),
{
    let ghost sub = h@.subrange(i as int, i as int + n@.len() as int);
    let h_len = h.len();
    proof {
        assert(h@.len() == h_len);
    }
    let mut j: usize = 0;
    while j < n.len()
        invariant
            i + n@.len() <= h@.len(),
            h@.len() <= usize::MAX,
            j <= n@.len(),
            sub == h@.subrange(i as int, i as int + n@.len() as int),
            forall|k: int| 0 <= k < j ==> h@[i + k] == n@[k],
        decreases n@.len() - j,
    {
        if h[i + j] != n[j] {
            proof {
                assert(sub[j as int] == h@[i + j]);
            }
            return false;
        }
        j = j + 1;
    }
    proof {
        assert(sub =~= n@);
    }
    true
}

/// First occurrence of the byte string `n` in `h`, if any.
pub fn find_sub(h: &[u8], n: &[u8]) -> (r: Option<usize>)
    ensures
        match r {
            Some(j) => first_match_from(h@, n@, 0) == Some(j as int),
            None => first_match_from(h@, n@, 0) is None,
        },
{
    if n.len() > h.len() {
        return None;
    }
    if n.len() == 0 {
        return Some(0);
    }
    let limit: usize = h.len() - n.len();
    let mut i: usize = 0;
    loop
        invariant
            0 < n@.len() <= h@.len(),
            h@.len() <= usize::MAX,
            limit == h@.len() - n@.len(),
            i <= limit,
            first_match_from(h@, n@, 0) == first_match_from(h@, n@, i as int),
        decreases limit - i,
    {
        if eq_at(h, n, i) {
            return Some(i);
        }
        if i == limit {
            proof {
                assert(first_match_from(h@, n@, i as int) == first_match_from(h@, n@, i + 1));
                assert(first_match_from(h@, n@, i + 1) is None);
            }
            return None;
        }
        proof {
            assert(first_match_from(h@, n@, i as int) == first_match_from(h@, n@, i + 1));
        }
        i = i + 1;
    }
}

/// Whether the byte string `n` occurs anywhere in `h`.
pub fn contains_sub(h: &[u8], n: &[u8]) -> (r: bool)
    ensures
        r == has_match(h@, n@),
{
    proof {
        lemma_first_match_from(h@, n@, 0);
    }
    let r = find_sub(h, n);
    r.is_some()
}

/// An ASCII decimal digit.
pub open spec fn is_digit(b: u8) -> bool {
    0x30 <= b <= 0x39
}

pub open spec fn all_digits(s: Seq<u8>) -> bool {
    forall|i: int| 0 <= i < s.len() ==> is_digit(#[trigger] s[i])
}

/// The numeric value of a sequence of ASCII digits, most significant first.
pub open spec fn digits_value(s: Seq<u8>) -> int
    decreases s.len(),
{
    if s.len() == 0 {
        0
    } else {
        digits_value(s.drop_last()) * 10 + (s.last() - 0x30)
    }
}

pub proof fn lemma_digits_value_nonneg(s: Seq<u8>)
    requires
        all_digits(s),
    ensures
        digits_value(s) >= 0,
    decreases s.len(),
{
    if s.len() > 0 {
        lemma_digits_value_nonneg(s.drop_last());
    }
}

/// A digit sequence is worth at least any of its prefixes.
pub proof fn lemma_digits_value_prefix(s: Seq<u8>, i: int)
    requires
        all_digits(s),
        0 <= i <= s.len(),
    ensures
        digits_value(s.take(i)) <= digits_value(s),
    decreases s.len(),
{
    if i < s.len() {
        assert(s.take(i) =~= s.drop_last().take(i));
        lemma_digits_value_prefix(s.drop_last(), i);
        lemma_digits_value_nonneg(s.drop_last());
    } else {
        assert(s.take(i) =~= s);
    }
}

/// What a run of bytes parses to as a decimal number: the value, when the
/// run is nonempty, consists of digits only and fits in `u64`.
pub open spec fn digits_parse(s: Seq<u8>) -> Option<u64> {
    if s.len() == 0 || !all_digits(s) || digits_value(s) > u64::MAX {
        None
    } else {
        Some(digits_value(s) as u64)
    }
}

/// Parses `s[from..to]` as a plain run of decimal digits.
pub fn parse_digits(s: &[u8], from: usize, to: usize) -> (r: Option<u64>)
    requires
        from <= to <= s@.len(),
    ensures
        r == digits_parse(s@.subrange(from as int, to as int)),
{
    let ghost whole = s@.subrange(from as int, to as int);
    if from == to {
        return None;
    }
    let mut acc: u64 = 0;
    let mut i: usize = from;
    while i < to
        invariant
            from <= i <= to <= s@.len(),
            whole == s@.subrange(from as int, to as int),
            all_digits(s@.subrange(from as int, i as int)),
            acc == digits_value(s@.subrange(from as int, i as int)),
        decreases to - i,
    {
        let ghost prefix = s@.subrange(from as int, i as int);
        let b = s[i];
        proof {
            assert(whole[i - from] == b);
        }
        if !(0x30 <= b && b <= 0x39) {
            return None;
        }
        let d: u64 = (b - 0x30) as u64;
        if acc > (u64::MAX - d) / 10 {
            proof {
                assert(s@.subrange(from as int, i + 1).drop_last() =~= prefix);
                assert(s@.subrange(from as int, i + 1) =~= whole.take(i + 1 - from));
                if all_digits(whole) {
                    lemma_digits_value_prefix(whole, i + 1 - from);
                }
            }
            return None;
        }
        proof {
            assert(s@.subrange(from as int, i + 1).drop_last() =~= prefix);
        }
        acc = acc * 10 + d;
        i = i + 1;
    }
    proof {
        assert(s@.subrange(from as int, i as int) =~= whole);
    }
    Some(acc)
}

/// An ASCII whitespace byte: the bytes `str::trim` removes from ASCII text.
pub open spec fn is_space(b: u8) -> bool {
    b == 0x20 || 0x09 <= b <= 0x0d
}

/// First index in `[from, to)` holding a non-space byte, else `to`.
pub open spec fn trim_lo(s: Seq<u8>, from: int, to: int) -> int
    decreases to - from,
{
    if from < 0 || from >= to {
        to
    } else if !is_space(s[from]) {
        from
    } else {
        trim_lo(s, from + 1, to)
    }
}

/// One past the last non-space byte in `[from, to)`, else `from`.
pub open spec fn trim_hi(s: Seq<u8>, from: int, to: int) -> int
    decreases to - from,
{
    if to <= from {
        from
    } else if !is_space(s[to - 1]) {
        to
    } else {
        trim_hi(s, from, to - 1)
    }
}

/// The bounds that whitespace-trimming `[from, to)` leaves.
pub open spec fn trim_range_spec(s: Seq<u8>, from: int, to: int) -> (int, int) {
    let lo = trim_lo(s, from, to);
    (lo, trim_hi(s, lo, to))
}

/// Trims ASCII whitespace from both ends of `s[from..to]`, returning the
/// remaining bounds.
pub fn trim_range(s: &[u8], from: usize, to: usize) -> (r: (usize, usize))
    requires
        from <= to <= s@.len(),
    ensures
        from <= r.0 <= r.1 <= to,
        r.0 as int == trim_range_spec(s@, from as int, to as int).0,
        r.1 as int == trim_range_spec(s@, from as int, to as int).1,
{
    let mut lo: usize = from;
    while lo < to && (s[lo] == 0x20 || (0x09 <= s[lo] && s[lo] <= 0x0d))
        invariant
            from <= lo <= to <= s@.len(),
            trim_lo(s@, from as int, to as int) == trim_lo(s@, lo as int, to as int),
        decreases to - lo,
    {
        lo = lo + 1;
    }
    let mut hi: usize = to;
    while hi > lo && (s[hi - 1] == 0x20 || (0x09 <= s[hi - 1] && s[hi - 1] <= 0x0d))
        invariant
            lo <= hi <= to <= s@.len(),
            trim_hi(s@, lo as int, to as int) == trim_hi(s@, lo as int, hi as int),
        decreases hi,
    {
        hi = hi - 1;
    }
    (lo, hi)
}

/// First index in `[from, to)` whose byte differs from `b`, else `to`.
pub open spec fn strip_lo(s: Seq<u8>, from: int, to: int, b: u8) -> int
    decreases to - from,
{
    if from < 0 || from >= to {
        to
    } else if s[from] != b {
        from
    } else {
        strip_lo(s, from + 1, to, b)
    }
}

/// One past the last index in `[from, to)` whose byte differs from `b`,
/// else `from`.
pub open spec fn strip_hi(s: Seq<u8>, from: int, to: int, b: u8) -> int
    decreases to - from,
{
    if to <= from {
        from
    } else if s[to - 1] != b {
        to
    } else {
        strip_hi(s, from, to - 1, b)
    }
}

/// Strips every leading occurrence of `b` from `s[from..to]`.
pub fn strip_byte_lo(s: &[u8], from: usize, to: usize, b: u8) -> (r: usize)
    requires
        from <= to <= s@.len(),
    ensures
        from <= r <= to,
        r as int == strip_lo(s@, from as int, to as int, b),
{
    let mut lo: usize = from;
    while lo < to && s[lo] == b
        invariant
            from <= lo <= to <= s@.len(),
            strip_lo(s@, from as int, to as int, b) == strip_lo(s@, lo as int, to as int, b),
        decreases to - lo,
    {
        lo = lo + 1;
    }
    lo
}

/// Strips every trailing occurrence of `b` from `s[from..to]`.
pub fn strip_byte_hi(s: &[u8], from: usize, to: usize, b: u8) -> (r: usize)
    requires
        from <= to <= s@.len(),
    ensures
        from <= r <= to,
        r as int == strip_hi(s@, from as int, to as int, b),
{
    let mut hi: usize = to;
    while hi > from && s[hi - 1] == b
        invariant
            from <= hi <= to <= s@.len(),
            strip_hi(s@, from as int, to as int, b) == strip_hi(s@, from as int, hi as int, b),
        decreases hi,
    {
        hi = hi - 1;
    }
    hi
}

/// First index at or after `from` holding byte `b`, else the length of `s`.
pub open spec fn find_byte_from(s: Seq<u8>, from: int, b: u8) -> int
    decreases s.len() - from,
{
    if from < 0 || from >= s.len() {
        s.len() as int
    } else if s[from] == b {
        from
    } else {
        find_byte_from(s, from + 1, b)
    }
}

/// `find_byte_from` looked at through a subrange that starts at `pos`.
pub proof fn lemma_find_byte_shift(s: Seq<u8>, pos: int, i: int, b: u8)
    requires
        0 <= pos,
        0 <= i,
        pos + i <= s.len(),
    ensures
        find_byte_from(s, pos + i, b) == pos + find_byte_from(
            s.subrange(pos, s.len() as int),
            i,
            b,
        ),
    decreases s.len() - pos - i,
{
    let sub = s.subrange(pos, s.len() as int);
    if pos + i >= s.len() {
    } else if s[pos + i] == b {
        assert(sub[i] == s[pos + i]);
    } else {
        assert(sub[i] == s[pos + i]);
        lemma_find_byte_shift(s, pos, i + 1, b);
    }
}

/// First index at or after `from` holding byte `b`, else the length of `s`.
pub fn find_byte(s: &[u8], from: usize, b: u8) -> (r: usize)
    requires
        from <= s@.len(),
    ensures
        from <= r <= s@.len(),
        r as int == find_byte_from(s@, from as int, b),
        r < s@.len() ==> s@[r as int] == b,
{
    let mut i: usize = from;
    while i < s.len() && s[i] != b
        invariant
            from <= i <= s@.len(),
            find_byte_from(s@, from as int, b) == find_byte_from(s@, i as int, b),
        decreases s@.len() - i,
    {
        i = i + 1;
    }
    i
}

/// ASCII lowercasing of one byte.
pub open spec fn lower_byte(b: u8) -> u8 {
    if 0x41 <= b <= 0x5a {
        (b + 0x20) as u8
    } else {
        b
    }
}

pub open spec fn lower_seq(s: Seq<u8>) -> Seq<u8> {
    s.map_values(|b: u8| lower_byte(b))
}

/// The ASCII-lowercased copy of `s[from..to]`.
pub fn lower_range(s: &[u8], from: usize, to: usize) -> (r: Vec<u8>)
    requires
        from <= to <= s@.len(),
    ensures
        r@ == lower_seq(s@.subrange(from as int, to as int)),
{
    let mut r: Vec<u8> = Vec::new();
    let mut i: usize = from;
    while i < to
        invariant
            from <= i <= to <= s@.len(),
            r@ =~= lower_seq(s@.subrange(from as int, i as int)),
        decreases to - i,
    {
        let b = s[i];
        let lb: u8 = if 0x41 <= b && b <= 0x5a {
            b + 0x20
        } else {
            b
        };
        r.push(lb);
        i = i + 1;
        proof {
            assert(r@ =~= lower_seq(s@.subrange(from as int, i as int)));
        }
    }
    proof {
        assert(r@ =~= lower_seq(s@.subrange(from as int, to as int)));
    }
    r
}

/// A line with a trailing carriage return removed, as `str::lines` yields it.
pub open spec fn strip_cr(l: Seq<u8>) -> Seq<u8> {
    if l.len() > 0 && l.last() == 0x0d {
        l.drop_last()
    } else {
        l
    }
}

/// The lines of `s`, split at line feeds, each stripped of a trailing
/// carriage return — the splitting `str::lines` performs.
pub open spec fn lines_spec(s: Seq<u8>) -> Seq<Seq<u8>>
    decreases s.len(),
{
    if s.len() == 0 {
        Seq::empty()
    } else {
        let e = find_byte_from(s, 0, 0x0a);
        if 0 <= e < s.len() {
            seq![strip_cr(s.subrange(0, e))] + lines_spec(s.subrange(e + 1, s.len() as int))
        } else {
            seq![strip_cr(s)]
        }
    }
}

/// Splits `s` into its lines.
pub fn split_lines(s: &[u8]) -> (r: Vec<Vec<u8>>)
    ensures
        r@.map_values(|l: Vec<u8>| l@) == lines_spec(s@),
{
    let ghost f = |l: Vec<u8>| l@;
    let mut r: Vec<Vec<u8>> = Vec::new();
    proof {
        assert(s@.subrange(0, s@.len() as int) =~= s@);
        assert(r@.map_values(f) =~= Seq::<Seq<u8>>::empty());
        assert(Seq::<Seq<u8>>::empty() + lines_spec(s@) =~= lines_spec(s@));
    }
    let slen = s.len();
    let mut pos: usize = 0;
    while pos < s.len()
        invariant
            pos <= s@.len(),
            slen == s@.len(),
            lines_spec(s@) == r@.map_values(|l: Vec<u8>| l@) + lines_spec(
                s@.subrange(pos as int, s@.len() as int),
            ),
        decreases s@.len() - pos,
    {
        let ghost f = |l: Vec<u8>| l@;
        let ghost old_r = r@;
        let ghost sub = s@.subrange(pos as int, s@.len() as int);
        let e = find_byte(s, pos, 0x0a);
        let hi: usize = if e > pos && s[e - 1] == 0x0d {
            e - 1
        } else {
            e
        };
        let mut line: Vec<u8> = Vec::new();
        let mut k: usize = pos;
        while k < hi
            invariant
                pos <= k <= hi <= s@.len(),
                line@ =~= s@.subrange(pos as int, k as int),
            decreases hi - k,
        {
            line.push(s[k]);
            k = k + 1;
            proof {
                assert(line@ =~= s@.subrange(pos as int, k as int));
            }
        }
        proof {
            assert(line@ =~= s@.subrange(pos as int, hi as int));
            lemma_find_byte_shift(s@, pos as int, 0, 0x0a);
            let e_sub = find_byte_from(sub, 0, 0x0a);
            assert(e == pos + e_sub);
            if e < s.len() {
                assert(sub.subrange(0, e_sub) =~= s@.subrange(pos as int, e as int));
                assert(sub.subrange(e_sub + 1, sub.len() as int) =~= s@.subrange(
                    e + 1,
                    s@.len() as int,
                ));
                if e > pos && s@[e - 1] == 0x0d {
                    assert(s@.subrange(pos as int, e as int).drop_last() =~= s@.subrange(
                        pos as int,
                        hi as int,
                    ));
                }
                assert(strip_cr(sub.subrange(0, e_sub)) =~= line@);
                assert(lines_spec(sub) =~= seq![line@] + lines_spec(
                    s@.subrange(e + 1, s@.len() as int),
                ));
            } else {
                assert(sub =~= s@.subrange(pos as int, e as int));
                if e > pos && s@[e - 1] == 0x0d {
                    assert(sub.drop_last() =~= s@.subrange(pos as int, hi as int));
                }
                assert(strip_cr(sub) =~= line@);
                assert(lines_spec(sub) =~= seq![line@]);
                assert(lines_spec(s@.subrange(s@.len() as int, s@.len() as int)) =~= Seq::<
                    Seq<u8>,
                >::empty());
            }
        }
        r.push(line);
        proof {
            assert(r@.map_values(f) =~= old_r.map_values(f).push(line@));
            assert(old_r.map_values(f) + lines_spec(sub) =~= r@.map_values(f) + lines_spec(
                s@.subrange(
                    if e < s@.len() {
                        e + 1
                    } else {
                        s@.len() as int
                    },
                    s@.len() as int,
                ),
            ));
        }
        if e == s.len() {
            pos = s.len();
        } else {
            pos = e + 1;
        }
    }
    proof {
        assert(lines_spec(s@.subrange(pos as int, s@.len() as int)) =~= Seq::<Seq<u8>>::empty());
        assert(r@.map_values(|l: Vec<u8>| l@) + Seq::<Seq<u8>>::empty() =~= r@.map_values(
            |l: Vec<u8>| l@,
        ));
    }
    r
}

/// First index at or after `from` holding a non-digit byte, else the length
/// of `s`.
pub open spec fn digit_run_end(s: Seq<u8>, from: int) -> int
    decreases s.len() - from,
{
    if from < 0 || from >= s.len() {
        s.len() as int
    } else if !is_digit(s[from]) {
        from
    } else {
        digit_run_end(s, from + 1)
    }
}

/// First index at or after `from` holding a non-digit byte, else the length
/// of `s`.
pub fn find_digit_run_end(s: &[u8], from: usize) -> (r: usize)
    requires
        from <= s@.len(),
    ensures
        from <= r <= s@.len(),
        r as int == digit_run_end(s@, from as int),
{
    let mut i: usize = from;
    while i < s.len() && 0x30 <= s[i] && s[i] <= 0x39
        invariant
            from <= i <= s@.len(),
            digit_run_end(s@, from as int) == digit_run_end(s@, i as int),
        decreases s@.len() - i,
    {
        i = i + 1;
    }
    i
}

/// Whether `s[from..to]` holds exactly the bytes of `n`.
pub fn range_eq(s: &[u8], from: usize, to: usize, n: &[u8]) -> (r: bool)
    requires
        from <= to <= s@.len(),
    ensures
        r == (s@.subrange(from as int, to as int) == n@),
{
    if to - from != n.len() {
        proof {
            assert(s@.subrange(from as int, to as int).len() != n@.len());
        }
        return false;
    }
    eq_at(s, n, from)
}

/// What a trimmed field parses to under `u64::from_str` rules: an optional
/// leading `+`, then a nonempty run of digits whose value fits.
pub open spec fn u64_parse(s: Seq<u8>) -> Option<u64> {
    if s.len() > 0 && s[0] == 0x2b {
        digits_parse(s.skip(1))
    } else {
        digits_parse(s)
    }
}

/// Parses `s[from..to]` as `u64::from_str` would.
pub fn parse_unsigned(s: &[u8], from: usize, to: usize) -> (r: Option<u64>)
    requires
        from <= to <= s@.len(),
    ensures
        r == u64_parse(s@.subrange(from as int, to as int)),
{
    let ghost whole = s@.subrange(from as int, to as int);
    if from < to && s[from] == 0x2b {
        proof {
            assert(whole[0] == s@[from as int]);
            assert(s@.subrange(from + 1, to as int) =~= whole.skip(1));
        }
        parse_digits(s, from + 1, to)
    } else {
        proof {
            if whole.len() > 0 {
                assert(whole[0] == s@[from as int]);
            }
        }
        parse_digits(s, from, to)
    }
}

} // verus!
