//! Byte-string helpers: the library handles all text as UTF-8 bytes.
//!
//! Case folding is ASCII-only, whitespace is ASCII whitespace, and the
//! lexicographic order compares byte values; on UTF-8 input that order
//! agrees with code-point order.

use vstd::prelude::*;

verus! {

// ---------------------------------------------------------------------
// ASCII case folding
// ---------------------------------------------------------------------

/// ASCII lower-casing of one byte.
pub open spec fn lower_byte_spec(b: u8) -> u8 {
    if 65 <= b <= 90 {
        (b + 32) as u8
    } else {
        b
    }
}

/// ASCII lower-casing of a byte string.
pub open spec fn lower_spec(s: Seq<u8>) -> Seq<u8> {
    s.map_values(|b: u8| lower_byte_spec(b))
}

/// ASCII lower-casing, executable.
pub fn to_lower(s: &[u8]) -> (r: Vec<u8>)
    ensures
        r@ == lower_spec(s@),
{
    let mut out: Vec<u8> = Vec::new();
    let mut i: usize = 0;
    while i < s.len()
        invariant
            i <= s@.len(),
            out@ =~= lower_spec(s@).take(i as int),
        decreases s@.len() - i,
    {
        let b = s[i];
        if 65 <= b && b <= 90 {
            out.push(b + 32);
        } else {
            out.push(b);
        }
        proof {
            assert(lower_spec(s@)[i as int] == lower_byte_spec(s@[i as int]));
            assert(out@ =~= lower_spec(s@).take(i as int + 1));
        }
        i += 1;
    }
    proof {
        assert(lower_spec(s@).take(s@.len() as int) =~= lower_spec(s@));
    }
    out
}

// ---------------------------------------------------------------------
// Whitespace trimming
// ---------------------------------------------------------------------

/// ASCII whitespace: space, tab, line feed, vertical tab, form feed,
/// carriage return.
pub open spec fn is_ws(b: u8) -> bool {
    b == 32 || b == 9 || b == 10 || b == 11 || b == 12 || b == 13
}

/// Number of leading whitespace bytes.
pub open spec fn leading_ws(s: Seq<u8>) -> int
    decreases s.len(),
{
    if s.len() == 0 {
        0
    } else if is_ws(s[0]) {
        1 + leading_ws(s.drop_first())
    } else {
        0
    }
}

/// Number of trailing whitespace bytes.
pub open spec fn trailing_ws(s: Seq<u8>) -> int
    decreases s.len(),
{
    if s.len() == 0 {
        0
    } else if is_ws(s.last()) {
        1 + trailing_ws(s.drop_last())
    } else {
        0
    }
}

/// The string with leading and trailing ASCII whitespace removed.
pub open spec fn trim_spec(s: Seq<u8>) -> Seq<u8> {
    if leading_ws(s) == s.len() {
        Seq::empty()
    } else {
        s.subrange(leading_ws(s), s.len() - trailing_ws(s))
    }
}

/// Trim ASCII whitespace from both ends.
pub fn trim(s: &[u8]) -> (r: Vec<u8>)
    ensures
        r@ == trim_spec(s@),
{
    proof {
        assert(s@.skip(0) =~= s@);
    }
    let mut lo: usize = 0;
    while lo < s.len() && is_ws_exec(s[lo])
        invariant
            lo <= s@.len(),
            leading_ws(s@) == lo + leading_ws(s@.skip(lo as int)),
            forall|j: int| 0 <= j < lo ==> is_ws(s@[j]),
        decreases s@.len() - lo,
    {
        proof {
            assert(s@.skip(lo as int)[0] == s@[lo as int]);
            assert(s@.skip(lo as int).drop_first() =~= s@.skip(lo as int + 1));
        }
        lo += 1;
    }
    proof {
        if lo < s@.len() {
            assert(s@.skip(lo as int)[0] == s@[lo as int]);
            assert(leading_ws(s@.skip(lo as int)) == 0);
        } else {
            assert(s@.skip(lo as int) =~= Seq::<u8>::empty());
        }
        assert(leading_ws(s@) == lo);
    }
    if lo == s.len() {
        return Vec::new();
    }
    proof {
        assert(s@.take(s@.len() as int) =~= s@);
    }
    let mut hi: usize = s.len();
    while hi > lo && is_ws_exec(s[hi - 1])
        invariant
            lo < hi <= s@.len(),
            trailing_ws(s@) == (s@.len() - hi) + trailing_ws(s@.take(hi as int)),
            leading_ws(s@) == lo,
            lo < s@.len() && !is_ws(s@[lo as int]),
        decreases hi,
    {
        proof {
            assert(s@.take(hi as int).last() == s@[hi as int - 1]);
            assert(s@.take(hi as int).drop_last() =~= s@.take(hi as int - 1));
        }
        hi -= 1;
    }
    proof {
        if hi > lo {
            assert(s@.take(hi as int).last() == s@[hi as int - 1]);
            assert(trailing_ws(s@.take(hi as int)) == 0);
        }
        assert(trailing_ws(s@) == s@.len() - hi);
    }
    let mut out: Vec<u8> = Vec::new();
    let mut i: usize = lo;
    while i < hi
        invariant
            lo <= i <= hi <= s@.len(),
            out@ =~= s@.subrange(lo as int, i as int),
        decreases hi - i,
    {
        out.push(s[i]);
        proof {
            assert(out@ =~= s@.subrange(lo as int, i as int + 1));
        }
        i += 1;
    }
    proof {
        assert(out@ =~= trim_spec(s@));
    }
    out
}

/// Executable ASCII whitespace test.
pub fn is_ws_exec(b: u8) -> (r: bool)
    ensures
        r == is_ws(b),
{
    b == 32 || b == 9 || b == 10 || b == 11 || b == 12 || b == 13
}

// ---------------------------------------------------------------------
// Substring search
// ---------------------------------------------------------------------

/// `needle` occurs contiguously inside `hay`.
pub open spec fn is_substring(hay: Seq<u8>, needle: Seq<u8>) -> bool {
    exists|i: int|
        0 <= i <= hay.len() - needle.len() && #[trigger] hay.subrange(i, i + needle.len())
            == needle
}

/// Substring search matching `is_substring`; the empty needle is found
/// in every string.
pub fn contains_subseq(hay: &[u8], needle: &[u8]) -> (r: bool)
    ensures
        r == is_substring(hay@, needle@),
{
    let nl = needle.len();
    if nl > hay.len() {
        return false;
    }
    if nl == 0 {
        proof {
            assert(hay@.subrange(0, 0 + needle@.len() as int) =~= needle@);
        }
        return true;
    }
    let mut i: usize = 0;
    while i <= hay.len() - nl
        invariant
            hay@.len() <= usize::MAX,
            1 <= nl == needle@.len() <= hay@.len(),
            i <= hay@.len() - nl + 1,
            forall|k: int| 0 <= k < i ==> #[trigger] hay@.subrange(k, k + nl) != needle@,
        decreases hay@.len() - i,
    {
        let mut j: usize = 0;
        let mut matched = true;
        while j < nl
            invariant
                nl == needle@.len() <= hay@.len(),
                i + nl <= hay@.len() <= usize::MAX,
                j <= nl,
                matched ==> forall|t: int| 0 <= t < j ==> hay@[i + t] == needle@[t],
                !matched ==> hay@.subrange(i as int, i + nl) != needle@,
            decreases nl - j,
        {
            if hay[i + j] != needle[j] {
                proof {
                    assert(hay@.subrange(i as int, i + nl)[j as int] == hay@[i + j]);
                }
                matched = false;
                j = nl;
            } else {
                j += 1;
            }
        }
        if matched {
            proof {
                assert(hay@.subrange(i as int, i + nl) =~= needle@);
            }
            return true;
        }
        i += 1;
    }
    proof {
        assert forall|k: int| 0 <= k <= hay@.len() - nl implies #[trigger] hay@.subrange(
            k,
            k + nl,
        ) != needle@ by {}
    }
    false
}

// ---------------------------------------------------------------------
// Lexicographic byte order
// ---------------------------------------------------------------------

/// Lexicographic `<=` on byte strings; on UTF-8 text this agrees with
/// code-point order.
pub open spec fn lex_le(a: Seq<u8>, b: Seq<u8>) -> bool
    decreases a.len(),
{
    if a.len() == 0 {
        true
    } else if b.len() == 0 {
        false
    } else if a[0] < b[0] {
        true
    } else if a[0] > b[0] {
        false
    } else {
        lex_le(a.drop_first(), b.drop_first())
    }
}

/// `lex_le` is total: two strings compare one way or the other.
pub proof fn lemma_lex_le_total(a: Seq<u8>, b: Seq<u8>)
    ensures
        lex_le(a, b) || lex_le(b, a),
    decreases a.len(),
{
    if a.len() == 0 || b.len() == 0 {
    } else if a[0] == b[0] {
        lemma_lex_le_total(a.drop_first(), b.drop_first());
    }
}

/// `lex_le` is transitive.
pub proof fn lemma_lex_le_trans(a: Seq<u8>, b: Seq<u8>, c: Seq<u8>)
    requires
        lex_le(a, b),
        lex_le(b, c),
    ensures
        lex_le(a, c),
    decreases a.len(),
{
    if a.len() == 0 {
    } else if b.len() == 0 {
    } else if c.len() == 0 {
    } else {
        if a[0] == b[0] && b[0] == c[0] {
            lemma_lex_le_trans(a.drop_first(), b.drop_first(), c.drop_first());
        }
    }
}

/// Lexicographic comparison, executable.
pub fn lex_le_exec(a: &[u8], b: &[u8]) -> (r: bool)
    ensures
        r == lex_le(a@, b@),
{
    proof {
        assert(a@.skip(0) =~= a@);
        assert(b@.skip(0) =~= b@);
    }
    let mut i: usize = 0;
    loop
        invariant
            i <= a@.len(),
            i <= b@.len(),
            lex_le(a@, b@) == lex_le(a@.skip(i as int), b@.skip(i as int)),
        decreases a@.len() - i,
    {
        proof {
            if i < a@.len() && i < b@.len() {
                assert(a@.skip(i as int)[0] == a@[i as int]);
                assert(b@.skip(i as int)[0] == b@[i as int]);
                assert(a@.skip(i as int).drop_first() =~= a@.skip(i as int + 1));
                assert(b@.skip(i as int).drop_first() =~= b@.skip(i as int + 1));
            } else {
                if i == a@.len() {
                    assert(a@.skip(i as int) =~= Seq::<u8>::empty());
                }
                if i == b@.len() {
                    assert(b@.skip(i as int) =~= Seq::<u8>::empty());
                }
            }
        }
        if i == a.len() {
            return true;
        }
        if i == b.len() {
            return false;
        }
        if a[i] < b[i] {
            return true;
        }
        if a[i] > b[i] {
            return false;
        }
        i += 1;
    }
}

// ---------------------------------------------------------------------
// Byte equality
// ---------------------------------------------------------------------

/// Equality of byte strings.
pub fn bytes_eq(a: &[u8], b: &[u8]) -> (r: bool)
    ensures
        r == (a@ == b@),
{
    if a.len() != b.len() {
        return false;
    }
    let mut i: usize = 0;
    while i < a.len()
        invariant
            a@.len() == b@.len(),
            i <= a@.len(),
            forall|j: int| 0 <= j < i ==> a@[j] == b@[j],
        decreases a@.len() - i,
    {
        if a[i] != b[i] {
            return false;
        }
        i += 1;
    }
    proof {
        assert(a@ =~= b@);
    }
    true
}

// ---------------------------------------------------------------------
// Splitting
// ---------------------------------------------------------------------

/// Split at every occurrence of `sep`; a string with no separator gives
/// one part, and every separator starts a new part.
pub open spec fn split_spec(s: Seq<u8>, sep: u8) -> Seq<Seq<u8>>
    decreases s.len(),
{
    if s.len() == 0 {
        seq![Seq::empty()]
    } else if s[0] == sep {
        seq![Seq::<u8>::empty()].add(split_spec(s.drop_first(), sep))
    } else {
        let rest = split_spec(s.drop_first(), sep);
        seq![seq![s[0]].add(rest[0])].add(rest.drop_first())
    }
}

/// `split_spec` always yields at least one part.
pub proof fn lemma_split_nonempty(s: Seq<u8>, sep: u8)
    ensures
        split_spec(s, sep).len() >= 1,
    decreases s.len(),
{
    if s.len() == 0 {
    } else {
        lemma_split_nonempty(s.drop_first(), sep);
    }
}

/// Splitting, executable.
pub fn split_bytes(s: &[u8], sep: u8) -> (r: Vec<Vec<u8>>)
    ensures
        r.deep_view() == split_spec(s@, sep),
{
    proof {
        assert(seq![Seq::<u8>::empty()].add(Seq::<Seq<u8>>::empty()) =~~= split_spec(
            s@.skip(s@.len() as int),
            sep,
        ));
    }
    let mut parts: Vec<Vec<u8>> = Vec::new();
    let mut cur: Vec<u8> = Vec::new();
    let mut i: usize = s.len();
    // Build from the right so the construction matches the recursive
    // definition of `split_spec` directly.
    while i > 0
        invariant
            i <= s@.len(),
            seq![cur@].add(parts.deep_view()) =~~= split_spec(s@.skip(i as int), sep),
        decreases i,
    {
        proof {
            assert(s@.skip(i as int - 1)[0] == s@[i as int - 1]);
            assert(s@.skip(i as int - 1).drop_first() =~= s@.skip(i as int));
        }
        let b = s[i - 1];
        if b == sep {
            parts.insert(0, cur);
            cur = Vec::new();
            proof {
                assert(seq![cur@].add(parts.deep_view()) =~~= split_spec(
                    s@.skip(i as int - 1),
                    sep,
                ));
            }
        } else {
            cur.insert(0, b);
            proof {
                let rest = split_spec(s@.skip(i as int), sep);
                lemma_split_nonempty(s@.skip(i as int), sep);
                assert(cur@ =~= seq![s@[i as int - 1]].add(rest[0]));
                assert(parts.deep_view() =~~= rest.drop_first());
                assert(seq![cur@].add(parts.deep_view()) =~~= split_spec(
                    s@.skip(i as int - 1),
                    sep,
                ));
            }
        }
        i -= 1;
    }
    proof {
        assert(s@.skip(0) =~= s@);
    }
    let mut result = parts;
    result.insert(0, cur);
    proof {
        assert(result.deep_view() =~~= split_spec(s@, sep));
    }
    result
}

/// Split at the first `sep` into the part before and the part after;
/// `None` when `sep` does not occur.
pub open spec fn split_once_spec(s: Seq<u8>, sep: u8) -> Option<(Seq<u8>, Seq<u8>)> {
    if exists|i: int| 0 <= i < s.len() && s[i] == sep {
        let i = first_index_of(s, sep);
        Some((s.subrange(0, i), s.subrange(i + 1, s.len() as int)))
    } else {
        None
    }
}

/// Index of the first occurrence of `sep`.
pub open spec fn first_index_of(s: Seq<u8>, sep: u8) -> int
    decreases s.len(),
{
    if s.len() == 0 {
        0
    } else if s[0] == sep {
        0
    } else {
        1 + first_index_of(s.drop_first(), sep)
    }
}

/// When `sep` occurs, `first_index_of` is its first occurrence.
pub proof fn lemma_first_index_char(s: Seq<u8>, sep: u8)
    ensures
        (exists|i: int| 0 <= i < s.len() && s[i] == sep) ==> {
            let f = first_index_of(s, sep);
            &&& 0 <= f < s.len()
            &&& s[f] == sep
            &&& forall|j: int| 0 <= j < f ==> s[j] != sep
        },
    decreases s.len(),
{
    if s.len() == 0 {
    } else if s[0] == sep {
    } else {
        lemma_first_index_char(s.drop_first(), sep);
        if exists|i: int| 0 <= i < s.len() && s[i] == sep {
            let w = choose|i: int| 0 <= i < s.len() && s[i] == sep;
            assert(s.drop_first()[w - 1] == s[w]);
            let f = first_index_of(s.drop_first(), sep);
            assert forall|j: int| 0 <= j < f + 1 implies s[j] != sep by {
                if j > 0 {
                    assert(s.drop_first()[j - 1] == s[j]);
                }
            }
        }
    }
}

/// `split_once`, executable.
pub fn split_once_bytes(s: &[u8], sep: u8) -> (r: Option<(Vec<u8>, Vec<u8>)>)
    ensures
        match split_once_spec(s@, sep) {
            Some((before, after)) => r matches Some(p) && p.0@ == before && p.1@ == after,
            None => r is None,
        },
{
    proof {
        lemma_first_index_char(s@, sep);
    }
    let mut i: usize = 0;
    while i < s.len()
        invariant
            i <= s@.len(),
            forall|j: int| 0 <= j < i ==> s@[j] != sep,
        decreases s@.len() - i,
    {
        if s[i] == sep {
            proof {
                lemma_first_index_char(s@, sep);
                assert(first_index_of(s@, sep) == i as int);
            }
            let mut before: Vec<u8> = Vec::new();
            let mut j: usize = 0;
            while j < i
                invariant
                    j <= i <= s@.len(),
                    before@ =~= s@.subrange(0, j as int),
                decreases i - j,
            {
                before.push(s[j]);
                proof {
                    assert(before@ =~= s@.subrange(0, j as int + 1));
                }
                j += 1;
            }
            let mut after: Vec<u8> = Vec::new();
            let mut k: usize = i + 1;
            while k < s.len()
                invariant
                    i < k <= s@.len(),
                    after@ =~= s@.subrange(i as int + 1, k as int),
                decreases s@.len() - k,
            {
                after.push(s[k]);
                proof {
                    assert(after@ =~= s@.subrange(i as int + 1, k as int + 1));
                }
                k += 1;
            }
            return Some((before, after));
        }
        i += 1;
    }
    None
}

// ---------------------------------------------------------------------
// Decimal parsing
// ---------------------------------------------------------------------

/// ASCII decimal digit.
pub open spec fn is_digit(b: u8) -> bool {
    48 <= b <= 57
}

/// Value of a digit string, most significant first.
pub open spec fn digits_val(s: Seq<u8>) -> int
    decreases s.len(),
{
    if s.len() == 0 {
        0
    } else {
        digits_val(s.drop_last()) * 10 + (s.last() - 48)
    }
}

/// A digit string has a non-negative value.
pub proof fn lemma_digits_val_nonneg(s: Seq<u8>)
    requires
        forall|i: int| 0 <= i < s.len() ==> is_digit(#[trigger] s[i]),
    ensures
        digits_val(s) >= 0,
    decreases s.len(),
{
    if s.len() > 0 {
        lemma_digits_val_nonneg(s.drop_last());
    }
}

/// Every byte is an ASCII decimal digit.
pub open spec fn all_digits(s: Seq<u8>) -> bool {
    forall|i: int| 0 <= i < s.len() ==> is_digit(#[trigger] s[i])
}

/// What Rust's decimal `i32` parsing accepts: an optional sign, then at
/// least one digit and nothing else, with the value in `i32` range.
pub open spec fn parse_i32_spec(s: Seq<u8>) -> Option<i32> {
    let neg = s.len() > 0 && s[0] == 45;
    let ds = if s.len() > 0 && (s[0] == 43 || s[0] == 45) {
        s.drop_first()
    } else {
        s
    };
    if ds.len() == 0 || !all_digits(ds) {
        None
    } else {
        let v = if neg {
            -digits_val(ds)
        } else {
            digits_val(ds)
        };
        if i32::MIN <= v <= i32::MAX {
            Some(v as i32)
        } else {
            None
        }
    }
}

/// Decimal `i32` parsing matching `parse_i32_spec`.
pub fn parse_i32(s: &[u8]) -> (r: Option<i32>)
    ensures
        r == parse_i32_spec(s@),
{
    let (neg, start): (bool, usize) = if s.len() > 0 && (s[0] == 43 || s[0] == 45) {
        (s[0] == 45, 1)
    } else {
        (false, 0)
    };
    let ghost ds = s@.skip(start as int);
    proof {
        if start == 0 {
            assert(s@.skip(0) =~= s@);
        } else {
            assert(s@.skip(1) =~= s@.drop_first());
        }
    }
    if s.len() == start {
        proof {
            assert(ds.len() == 0);
        }
        return None;
    }
    // Accumulate saturated at 2^31 + 1: any value beyond 2^31 is out of
    // range for both signs, so the exact value no longer matters.
    let mut acc: i64 = 0;
    let mut i: usize = start;
    while i < s.len()
        invariant
            start <= i <= s@.len(),
            start < s@.len(),
            start <= 1,
            start == 1 ==> s@.len() > 0 && (s@[0] == 43 || s@[0] == 45) && ds == s@.drop_first(),
            start == 0 ==> !(s@.len() > 0 && (s@[0] == 43 || s@[0] == 45)) && ds == s@,
            neg == (start == 1 && s@[0] == 45),
            ds.len() == s@.len() - start,
            ds == s@.skip(start as int),
            forall|j: int| 0 <= j < i - start ==> is_digit(#[trigger] ds[j]),
            0 <= acc <= 0x8000_0001,
            acc == 0x8000_0001 ==> digits_val(ds.take(i - start)) > 0x8000_0000,
            acc < 0x8000_0001 ==> acc == digits_val(ds.take(i - start)),
        decreases s@.len() - i,
    {
        let b = s[i];
        if b < 48 || b > 57 {
            proof {
                assert(ds[i - start] == s@[i as int]);
                assert(!all_digits(ds));
            }
            return None;
        }
        proof {
            assert(ds[i - start] == s@[i as int]);
            let t = ds.take(i - start + 1);
            assert(t.drop_last() =~= ds.take(i - start));
            assert(t.last() == ds[i - start]);
            lemma_digits_val_nonneg_prefix(ds, i - start);
        }
        let mut next: i64 = acc * 10 + (b - 48) as i64;
        if next > 0x8000_0000 {
            next = 0x8000_0001;
        }
        acc = next;
        i += 1;
    }
    proof {
        assert(ds.take(i - start) =~= ds);
        assert(acc == 0x8000_0001 ==> digits_val(ds) > 0x8000_0000);
        assert(acc < 0x8000_0001 ==> acc == digits_val(ds));
        assert(all_digits(ds));
    }
    if acc == 0x8000_0001 {
        return None;
    }
    if neg {
        proof {
            assert(s@[0] == 45);
        }
        Some((-acc) as i32)
    } else {
        if acc > 0x7FFF_FFFF {
            return None;
        }
        Some(acc as i32)
    }
}

/// The digits of a prefix form digits too.
proof fn lemma_digits_val_nonneg_prefix(ds: Seq<u8>, n: int)
    requires
        0 <= n <= ds.len(),
        forall|j: int| 0 <= j < n ==> is_digit(#[trigger] ds[j]),
    ensures
        digits_val(ds.take(n)) >= 0,
{
    let t = ds.take(n);
    assert(forall|j: int| 0 <= j < t.len() ==> is_digit(#[trigger] t[j]));
    lemma_digits_val_nonneg(t);
}

/// Decimal digits of `n`, for `0 <= n <= 100`.
pub open spec fn dec_spec(n: int) -> Seq<u8> {
    if n >= 100 {
        seq![49u8, 48u8, 48u8]
    } else if n >= 10 {
        seq![(48 + n / 10) as u8, (48 + n % 10) as u8]
    } else {
        seq![(48 + if n >= 0 {
            n
        } else {
            0
        }) as u8]
    }
}

/// Decimal digits of a percentage in `[0, 100]`.
pub fn dec_bytes(n: i32) -> (r: Vec<u8>)
    requires
        0 <= n <= 100,
    ensures
        r@ == dec_spec(n as int),
{
    let mut out: Vec<u8> = Vec::new();
    if n >= 100 {
        out.push(49);
        out.push(48);
        out.push(48);
        proof {
            assert(out@ =~= dec_spec(n as int));
        }
    } else if n >= 10 {
        out.push(48 + (n / 10) as u8);
        out.push(48 + (n % 10) as u8);
        proof {
            assert(out@ =~= dec_spec(n as int));
        }
    } else {
        out.push(48 + n as u8);
        proof {
            assert(out@ =~= dec_spec(n as int));
        }
    }
    out
}

} // verus!
