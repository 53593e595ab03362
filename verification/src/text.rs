//! Byte-level text primitives: substring search, digit runs, decimal
//! parsing, slicing and line splitting, each proved against a spec
//! function over `Seq<u8>`.
use vstd::prelude::*;

verus! {

/// A byte is an ASCII decimal digit.
pub open spec fn is_digit(b: u8) -> bool {
    48 <= b <= 57
}

/// Exec check for [`is_digit`].
pub fn byte_is_digit(b: u8) -> (r: bool)
    ensures
        r == is_digit(b),
{
    48 <= b && b <= 57
}

/// Whether pattern `p` occurs in `s` starting exactly at index `i`.
pub open spec fn is_match_at(s: Seq<u8>, p: Seq<u8>, i: int) -> bool {
    &&& 0 <= i
    &&& i + p.len() <= s.len()
    &&& forall|j: int| 0 <= j < p.len() ==> s[i + j] == p[j]
}

/// Compares `p` against `s` at position `i`.
pub fn match_at(s: &Vec<u8>, i: usize, p: &Vec<u8>) -> (r: bool)
    ensures
        r == is_match_at(s@, p@, i as int),
{
    if i > s.len() || p.len() > s.len() - i {
        return false;
    }
    let mut j: usize = 0;
    while j < p.len()
        invariant
            i + p.len() <= s.len(),
            j <= p.len(),
            forall|k: int| 0 <= k < j ==> s@[i + k] == p@[k],
        decreases p.len() - j,
    {
        if s[i + j] != p[j] {
            return false;
        }
        j += 1;
    }
    true
}

/// Index of the first occurrence of `p` in `s` at or after `from`.
pub open spec fn spec_find(s: Seq<u8>, p: Seq<u8>, from: int) -> Option<int>
    decreases s.len() - from,
{
    if from < 0 || from + p.len() > s.len() {
        None
    } else if is_match_at(s, p, from) {
        Some(from)
    } else {
        spec_find(s, p, from + 1)
    }
}

/// A hit reported by [`spec_find`] is a match no earlier than `from`.
pub proof fn lemma_spec_find(s: Seq<u8>, p: Seq<u8>, from: int)
    ensures
        spec_find(s, p, from) matches Some(i) ==> from <= i && is_match_at(s, p, i),
    decreases s.len() - from,
{
    if !(from < 0 || from + p.len() > s.len()) && !is_match_at(s, p, from) {
        lemma_spec_find(s, p, from + 1);
    }
}

/// Searches for `p` in `s`, starting at `from`.
pub fn find_from(s: &Vec<u8>, p: &Vec<u8>, from: usize) -> (r: Option<usize>)
    ensures
        r matches Some(i) ==> spec_find(s@, p@, from as int) == Some(i as int),
        r is None ==> spec_find(s@, p@, from as int) is None,
{
    let mut i: usize = from;
    if p.len() > s.len() {
        return None;
    }
    while i <= s.len() - p.len()
        invariant
            from <= i,
            p.len() <= s.len(),
            spec_find(s@, p@, from as int) == spec_find(s@, p@, i as int),
        decreases s.len() - i,
    {
        if match_at(s, i, p) {
            assert(spec_find(s@, p@, i as int) == Some(i as int));
            return Some(i);
        }
        assert(spec_find(s@, p@, i as int) == spec_find(s@, p@, i + 1));
        i += 1;
    }
    assert(spec_find(s@, p@, i as int) is None);
    None
}

/// End of the run of decimal digits that starts at `i`.
pub open spec fn digits_end(s: Seq<u8>, i: int) -> int
    decreases s.len() - i,
{
    if i < 0 || i >= s.len() || !is_digit(s[i]) {
        i
    } else {
        digits_end(s, i + 1)
    }
}

/// The digit run is a well-formed, maximal range.
pub proof fn lemma_digits_end(s: Seq<u8>, i: int)
    requires
        0 <= i <= s.len(),
    ensures
        i <= digits_end(s, i) <= s.len(),
        forall|k: int| i <= k < digits_end(s, i) ==> is_digit(s[k]),
        digits_end(s, i) < s.len() ==> !is_digit(s[digits_end(s, i)]),
    decreases s.len() - i,
{
    if !(i >= s.len() || !is_digit(s[i])) {
        lemma_digits_end(s, i + 1);
    }
}

/// Scans the digit run starting at `i`.
pub fn scan_digits(s: &Vec<u8>, i: usize) -> (r: usize)
    requires
        i <= s.len(),
    ensures
        r == digits_end(s@, i as int),
{
    let mut j: usize = i;
    while j < s.len() && byte_is_digit(s[j])
        invariant
            i <= j <= s.len(),
            digits_end(s@, i as int) == digits_end(s@, j as int),
        decreases s.len() - j,
    {
        assert(digits_end(s@, j as int) == digits_end(s@, j + 1));
        j += 1;
    }
    j
}

/// End of the run of non-digit bytes that starts at `i`.
pub open spec fn nondigits_end(s: Seq<u8>, i: int) -> int
    decreases s.len() - i,
{
    if i < 0 || i >= s.len() || is_digit(s[i]) {
        i
    } else {
        nondigits_end(s, i + 1)
    }
}

/// The non-digit run is a well-formed, maximal range.
pub proof fn lemma_nondigits_end(s: Seq<u8>, i: int)
    requires
        0 <= i <= s.len(),
    ensures
        i <= nondigits_end(s, i) <= s.len(),
        forall|k: int| i <= k < nondigits_end(s, i) ==> !is_digit(s[k]),
        nondigits_end(s, i) < s.len() ==> is_digit(s[nondigits_end(s, i)]),
    decreases s.len() - i,
{
    if !(i >= s.len() || is_digit(s[i])) {
        lemma_nondigits_end(s, i + 1);
    }
}

/// Scans the non-digit run starting at `i`.
pub fn scan_nondigits(s: &Vec<u8>, i: usize) -> (r: usize)
    requires
        i <= s.len(),
    ensures
        r == nondigits_end(s@, i as int),
{
    let mut j: usize = i;
    while j < s.len() && !byte_is_digit(s[j])
        invariant
            i <= j <= s.len(),
            nondigits_end(s@, i as int) == nondigits_end(s@, j as int),
        decreases s.len() - j,
    {
        assert(nondigits_end(s@, j as int) == nondigits_end(s@, j + 1));
        j += 1;
    }
    j
}

/// Index of the first occurrence of byte `b` in `s` at or after `from`.
pub open spec fn spec_find_byte(s: Seq<u8>, b: u8, from: int) -> Option<int>
    decreases s.len() - from,
{
    if from < 0 || from >= s.len() {
        None
    } else if s[from] == b {
        Some(from)
    } else {
        spec_find_byte(s, b, from + 1)
    }
}

/// A hit reported by [`spec_find_byte`] is in range and is the byte sought.
pub proof fn lemma_spec_find_byte(s: Seq<u8>, b: u8, from: int)
    ensures
        spec_find_byte(s, b, from) matches Some(i) ==> from <= i < s.len() && s[i] == b,
    decreases s.len() - from,
{
    if !(from < 0 || from >= s.len()) && s[from] != b {
        lemma_spec_find_byte(s, b, from + 1);
    }
}

/// Searches for byte `b` in `s`, starting at `from`.
pub fn find_byte(s: &Vec<u8>, b: u8, from: usize) -> (r: Option<usize>)
    ensures
        r matches Some(i) ==> spec_find_byte(s@, b, from as int) == Some(i as int),
        r is None ==> spec_find_byte(s@, b, from as int) is None,
{
    let mut i: usize = from;
    while i < s.len()
        invariant
            from <= i,
            spec_find_byte(s@, b, from as int) == spec_find_byte(s@, b, i as int),
        decreases s.len() - i,
    {
        if s[i] == b {
            return Some(i);
        }
        assert(spec_find_byte(s@, b, i as int) == spec_find_byte(s@, b, i + 1));
        i += 1;
    }
    None
}

/// Whether the range `[i, j)` of `s` contains a decimal digit.
pub fn range_has_digit(s: &Vec<u8>, i: usize, j: usize) -> (r: bool)
    requires
        i <= j <= s.len(),
    ensures
        r == exists|k: int| i <= k < j && is_digit(s@[k]),
{
    let mut k: usize = i;
    while k < j
        invariant
            i <= k <= j <= s.len(),
            forall|t: int| i <= t < k ==> !is_digit(s@[t]),
        decreases j - k,
    {
        if byte_is_digit(s[k]) {
            return true;
        }
        k += 1;
    }
    false
}

/// Copy of the range `[i, j)` of `s`.
pub fn subvec(s: &Vec<u8>, i: usize, j: usize) -> (r: Vec<u8>)
    requires
        i <= j <= s.len(),
    ensures
        r@ == s@.subrange(i as int, j as int),
{
    let mut r: Vec<u8> = Vec::new();
    let mut k: usize = i;
    while k < j
        invariant
            i <= k <= j <= s.len(),
            r@ == s@.subrange(i as int, k as int),
        decreases j - k,
    {
        r.push(s[k]);
        assert(s@.subrange(i as int, k + 1) =~= s@.subrange(i as int, k as int).push(s@[k as int]));
        k += 1;
    }
    r
}

/// Byte-wise equality of two vectors.
pub fn bytes_eq(a: &Vec<u8>, b: &Vec<u8>) -> (r: bool)
    ensures
        r == (a@ == b@),
{
    if a.len() != b.len() {
        assert(a@ != b@);
        return false;
    }
    let mut k: usize = 0;
    while k < a.len()
        invariant
            a.len() == b.len(),
            k <= a.len(),
            forall|t: int| 0 <= t < k ==> a@[t] == b@[t],
        decreases a.len() - k,
    {
        if a[k] != b[k] {
            return false;
        }
        k += 1;
    }
    assert(a@ =~= b@);
    true
}

/// Value of the decimal digit string in the range `[i, j)` of `s`.
pub open spec fn digits_val(s: Seq<u8>, i: int, j: int) -> nat
    decreases j - i,
{
    if j <= i {
        0
    } else {
        digits_val(s, i, j - 1) * 10 + (if is_digit(s[j - 1]) {
            (s[j - 1] - 48) as nat
        } else {
            0
        })
    }
}

/// A longer digit string never has a smaller value.
pub proof fn lemma_digits_val_mono(s: Seq<u8>, i: int, a: int, b: int)
    requires
        i <= a <= b,
    ensures
        digits_val(s, i, a) <= digits_val(s, i, b),
    decreases b - a,
{
    if a < b {
        lemma_digits_val_mono(s, i, a, b - 1);
        assert(digits_val(s, i, b - 1) * 10 >= digits_val(s, i, b - 1));
    }
}

proof fn lemma_parse_step_fits(acc: int, d: int, m: int)
    requires
        0 <= d <= 9,
        d <= m,
        0 <= acc,
        acc <= (m - d) / 10,
    ensures
        acc * 10 + d <= m,
{
    let q = (m - d) / 10;
    vstd::arithmetic::div_mod::lemma_fundamental_div_mod(m - d, 10);
    vstd::arithmetic::div_mod::lemma_mod_division_less_than_divisor(m - d, 10);
    assert(acc * 10 <= q * 10) by (nonlinear_arith)
        requires
            acc <= q,
    ;
}

proof fn lemma_parse_step_overflows(acc: int, d: int, m: int)
    requires
        0 <= d <= 9,
        d <= m,
        0 <= acc,
        acc > (m - d) / 10,
    ensures
        acc * 10 + d > m,
{
    let q = (m - d) / 10;
    vstd::arithmetic::div_mod::lemma_fundamental_div_mod(m - d, 10);
    vstd::arithmetic::div_mod::lemma_mod_division_less_than_divisor(m - d, 10);
    assert(acc * 10 >= (q + 1) * 10) by (nonlinear_arith)
        requires
            acc >= q + 1,
    ;
}

/// Machine-word value of the digit string in `[i, j)`, or `None` when the
/// value does not fit in `usize`.
pub fn parse_usize(s: &Vec<u8>, i: usize, j: usize) -> (r: Option<usize>)
    requires
        i <= j <= s.len(),
    ensures
        r matches Some(v) ==> digits_val(s@, i as int, j as int) == v,
        r is None ==> digits_val(s@, i as int, j as int) > usize::MAX,
{
    let mut acc: usize = 0;
    let mut k: usize = i;
    while k < j
        invariant
            i <= k <= j <= s.len(),
            acc == digits_val(s@, i as int, k as int),
        decreases j - k,
    {
        let d: usize = if byte_is_digit(s[k]) {
            (s[k] - 48) as usize
        } else {
            0
        };
        if acc > (usize::MAX - d) / 10 {
            proof {
                lemma_parse_step_overflows(acc as int, d as int, usize::MAX as int);
                lemma_digits_val_mono(s@, i as int, k + 1, j as int);
            }
            return None;
        }
        proof {
            lemma_parse_step_fits(acc as int, d as int, usize::MAX as int);
        }
        acc = acc * 10 + d;
        k += 1;
    }
    Some(acc)
}

/// The digit-string value when it fits in `usize`, and 0 otherwise; the
/// recovery the record builder applies to malformed numeric fields.
pub open spec fn val_or_zero(s: Seq<u8>, i: int, j: int) -> usize {
    if digits_val(s, i, j) <= usize::MAX {
        digits_val(s, i, j) as usize
    } else {
        0
    }
}

/// Like [`parse_usize`], defaulting to 0 on overflow.
pub fn parse_or_zero(s: &Vec<u8>, i: usize, j: usize) -> (r: usize)
    requires
        i <= j <= s.len(),
    ensures
        r == val_or_zero(s@, i as int, j as int),
{
    match parse_usize(s, i, j) {
        Some(v) => v,
        None => 0,
    }
}

} // verus!
