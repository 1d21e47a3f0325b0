use vstd::prelude::*;
use vstd::slice::slice_index_get;
use vstd::slice::slice_subrange;
use vstd::string::StringSliceAdditionalSpecFns;

verus! {

// Byte-level text helpers shared by the banner parser, the MJPEG reader and
// the build-settings scanner. All contracts are stated over `Seq<u8>`.

/// ASCII whitespace, as `char::is_whitespace` classifies the ASCII range.
pub open spec fn is_ascii_space(b: u8) -> bool {
    b == 32 || b == 9 || b == 10 || b == 13 || b == 11 || b == 12
}

pub open spec fn is_digit(b: u8) -> bool {
    48 <= b <= 57
}

pub open spec fn digit_of(b: u8) -> nat {
    if is_digit(b) {
        (b - 48) as nat
    } else {
        0
    }
}

pub open spec fn all_digits(s: Seq<u8>) -> bool {
    forall|i: int| 0 <= i < s.len() ==> is_digit(#[trigger] s[i])
}

/// Value of a string of decimal digits, most significant first.
pub open spec fn digits_val(s: Seq<u8>) -> nat
    decreases s.len(),
{
    if s.len() == 0 {
        0
    } else {
        digits_val(s.drop_last()) * 10 + digit_of(s.last())
    }
}

/// What `str::parse::<usize>` returns on a byte string: the value when the
/// bytes are all digits, there is at least one, and the value fits.
pub open spec fn parsed_usize(s: Seq<u8>) -> Option<usize> {
    if s.len() > 0 && all_digits(s) && digits_val(s) <= usize::MAX {
        Some(digits_val(s) as usize)
    } else {
        None
    }
}

pub open spec fn trim_end_spec(s: Seq<u8>) -> Seq<u8>
    decreases s.len(),
{
    if s.len() == 0 {
        s
    } else if is_ascii_space(s.last()) {
        trim_end_spec(s.drop_last())
    } else {
        s
    }
}

pub open spec fn trim_start_spec(s: Seq<u8>) -> Seq<u8>
    decreases s.len(),
{
    if s.len() == 0 {
        s
    } else if is_ascii_space(s.first()) {
        trim_start_spec(s.drop_first())
    } else {
        s
    }
}

/// Whitespace stripped from both ends.
pub open spec fn trim_spec(s: Seq<u8>) -> Seq<u8> {
    trim_start_spec(trim_end_spec(s))
}

pub proof fn lemma_trim_end_is_prefix(s: Seq<u8>, k: int)
    requires
        0 <= k <= s.len(),
        forall|i: int| k <= i < s.len() ==> is_ascii_space(#[trigger] s[i]),
        k == 0 || !is_ascii_space(s[k - 1]),
    ensures
        trim_end_spec(s) == s.subrange(0, k),
    decreases s.len(),
{
    if s.len() == k {
        assert(s.subrange(0, k) =~= s);
        if k > 0 {
            assert(s.last() == s[k - 1]);
        }
    } else {
        assert(is_ascii_space(s.last()));
        lemma_trim_end_is_prefix(s.drop_last(), k);
        assert(s.drop_last().subrange(0, k) =~= s.subrange(0, k));
    }
}

pub proof fn lemma_trim_start_is_suffix(s: Seq<u8>, k: int)
    requires
        0 <= k <= s.len(),
        forall|i: int| 0 <= i < k ==> is_ascii_space(#[trigger] s[i]),
        k == s.len() || !is_ascii_space(s[k]),
    ensures
        trim_start_spec(s) == s.subrange(k, s.len() as int),
    decreases s.len(),
{
    if k == 0 {
        if s.len() > 0 {
            assert(s.first() == s[0]);
        }
        assert(s.subrange(0, s.len() as int) =~= s);
    } else {
        assert(is_ascii_space(s.first()));
        lemma_trim_start_is_suffix(s.drop_first(), k - 1);
        assert(s.drop_first().subrange(k - 1, s.drop_first().len() as int) =~= s.subrange(
            k,
            s.len() as int,
        ));
    }
}

/// One byte of ASCII whitespace, decided in executable code.
pub fn is_space_byte(b: u8) -> (r: bool)
    ensures
        r == is_ascii_space(b),
{
    b == 32 || b == 9 || b == 10 || b == 13 || b == 11 || b == 12
}

/// Strips ASCII whitespace from both ends of a byte slice.
pub fn trim_slice<'a>(v: &'a [u8]) -> (r: &'a [u8])
    ensures
        r@ == trim_spec(v@),
{
    let mut end: usize = v.len();
    while end > 0 && is_space_byte(*slice_index_get(v, end - 1))
        invariant
            end <= v@.len(),
            forall|i: int| end <= i < v@.len() ==> is_ascii_space(#[trigger] v@[i]),
        decreases end,
    {
        end = end - 1;
    }
    let mut start: usize = 0;
    while start < end && is_space_byte(*slice_index_get(v, start))
        invariant
            start <= end <= v@.len(),
            forall|i: int| end <= i < v@.len() ==> is_ascii_space(#[trigger] v@[i]),
            forall|i: int| 0 <= i < start ==> is_ascii_space(#[trigger] v@[i]),
        decreases end - start,
    {
        start = start + 1;
    }
    proof {
        lemma_trim_end_is_prefix(v@, end as int);
        lemma_trim_start_is_suffix(v@.subrange(0, end as int), start as int);
    }
    slice_subrange(v, start, end)
}

/// Strips ASCII whitespace from the end of a byte slice.
pub fn trim_end_slice<'a>(v: &'a [u8]) -> (r: &'a [u8])
    ensures
        r@ == trim_end_spec(v@),
{
    let mut end: usize = v.len();
    while end > 0 && is_space_byte(*slice_index_get(v, end - 1))
        invariant
            end <= v@.len(),
            forall|i: int| end <= i < v@.len() ==> is_ascii_space(#[trigger] v@[i]),
        decreases end,
    {
        end = end - 1;
    }
    proof {
        lemma_trim_end_is_prefix(v@, end as int);
    }
    slice_subrange(v, 0, end)
}

/// Appends every byte of an ASCII-or-UTF-8 string slice.
pub fn push_str_bytes(out: &mut Vec<u8>, s: &str)
    ensures
        final(out)@ == old(out)@ + s.spec_bytes(),
{
    let bs = s.as_bytes();
    let n = bs.len();
    let mut i: usize = 0;
    while i < n
        invariant
            i <= n,
            n == bs@.len(),
            bs@ == s.spec_bytes(),
            out@ == old(out)@ + bs@.subrange(0, i as int),
        decreases n - i,
    {
        out.push(*slice_index_get(bs, i));
        proof {
            assert(out@ =~= old(out)@ + bs@.subrange(0, i as int + 1));
        }
        i = i + 1;
    }
    proof {
        assert(bs@.subrange(0, n as int) =~= bs@);
    }
}

/// Equality of two byte slices.
pub fn bytes_eq(a: &[u8], b: &[u8]) -> (r: bool)
    ensures
        r == (a@ == b@),
{
    if a.len() != b.len() {
        return false;
    }
    let n = a.len();
    let mut i: usize = 0;
    while i < n
        invariant
            i <= n,
            n == a@.len() == b@.len(),
            forall|j: int| 0 <= j < i ==> a@[j] == b@[j],
        decreases n - i,
    {
        if *slice_index_get(a, i) != *slice_index_get(b, i) {
            return false;
        }
        i = i + 1;
    }
    proof {
        assert(a@ =~= b@);
    }
    true
}

/// Does `v` begin with `prefix`?
pub fn starts_with_bytes(v: &[u8], prefix: &[u8]) -> (r: bool)
    ensures
        r == (v@.len() >= prefix@.len() && v@.subrange(0, prefix@.len() as int) == prefix@),
{
    if v.len() < prefix.len() {
        return false;
    }
    let head = slice_subrange(v, 0, prefix.len());
    bytes_eq(head, prefix)
}

/// Does `v` end with `suffix`?
pub fn ends_with_bytes(v: &[u8], suffix: &[u8]) -> (r: bool)
    ensures
        r == (v@.len() >= suffix@.len() && v@.subrange(
            v@.len() - suffix@.len(),
            v@.len() as int,
        ) == suffix@),
{
    if v.len() < suffix.len() {
        return false;
    }
    let tail = slice_subrange(v, v.len() - suffix.len(), v.len());
    bytes_eq(tail, suffix)
}

/// Does `v` end with `suffix`? The spec-level twin of `ends_with_bytes`.
pub open spec fn has_suffix(v: Seq<u8>, suffix: Seq<u8>) -> bool {
    v.len() >= suffix.len() && v.subrange(v.len() - suffix.len(), v.len() as int) == suffix
}

/// `pat` occurs in `v` at offset `j`.
pub open spec fn matches_at(v: Seq<u8>, pat: Seq<u8>, j: int) -> bool {
    0 <= j && j + pat.len() <= v.len() && v.subrange(j, j + pat.len()) == pat
}

/// First occurrence of `pat` in `v`, as `str::find` reports it.
pub fn find_subslice(v: &[u8], pat: &[u8]) -> (r: Option<usize>)
    ensures
        match r {
            Some(i) => matches_at(v@, pat@, i as int) && forall|j: int|
                0 <= j < i ==> !matches_at(v@, pat@, j),
            None => forall|j: int| !matches_at(v@, pat@, j),
        },
{
    if pat.len() > v.len() {
        return None;
    }
    if pat.len() == 0 {
        proof {
            assert(matches_at(v@, pat@, 0)) by {
                assert(v@.subrange(0, 0) =~= pat@);
            }
        }
        return Some(0);
    }
    let last = v.len() - pat.len();
    let mut i: usize = 0;
    while i <= last
        invariant
            1 <= pat@.len() <= v@.len() <= usize::MAX,
            last == v@.len() - pat@.len(),
            i <= last + 1,
            forall|j: int| 0 <= j < i ==> !matches_at(v@, pat@, j),
        decreases last + 1 - i,
    {
        let window = slice_subrange(v, i, i + pat.len());
        if bytes_eq(window, pat) {
            return Some(i);
        }
        i = i + 1;
    }
    proof {
        assert forall|j: int| !matches_at(v@, pat@, j) by {
            if matches_at(v@, pat@, j) {
                assert(j <= last as int);
            }
        }
    }
    None
}

pub proof fn lemma_digits_val_step(s: Seq<u8>, i: int)
    requires
        0 <= i < s.len(),
    ensures
        digits_val(s.subrange(0, i + 1)) == digits_val(s.subrange(0, i)) * 10 + digit_of(s[i]),
{
    let p = s.subrange(0, i + 1);
    assert(p.drop_last() =~= s.subrange(0, i));
    assert(p.last() == s[i]);
}

pub proof fn lemma_digits_val_prefix_le(s: Seq<u8>, i: int)
    requires
        0 <= i <= s.len(),
    ensures
        digits_val(s.subrange(0, i)) <= digits_val(s),
    decreases s.len() - i,
{
    if i == s.len() {
        assert(s.subrange(0, i) =~= s);
    } else {
        lemma_digits_val_step(s, i);
        let a = digits_val(s.subrange(0, i));
        assert(a * 10 >= a) by (nonlinear_arith);
        lemma_digits_val_prefix_le(s, i + 1);
    }
}

/// Parses an unsigned decimal number, exactly as `parsed_usize` describes.
pub fn parse_usize(v: &[u8]) -> (r: Option<usize>)
    ensures
        r == parsed_usize(v@),
{
    if v.len() == 0 {
        return None;
    }
    let mut acc: usize = 0;
    let mut i: usize = 0;
    let n = v.len();
    while i < n
        invariant
            i <= n,
            n == v@.len(),
            all_digits(v@.subrange(0, i as int)),
            acc == digits_val(v@.subrange(0, i as int)),
        decreases n - i,
    {
        let b = *slice_index_get(v, i);
        if !(48 <= b && b <= 57) {
            proof {
                assert(!is_digit(v@[i as int]));
            }
            return None;
        }
        let d = (b - 48) as usize;
        proof {
            lemma_digits_val_step(v@, i as int);
        }
        let shifted = match acc.checked_mul(10) {
            Some(x) => x,
            None => {
                proof {
                    lemma_digits_val_prefix_le(v@, i as int + 1);
                }
                return None;
            },
        };
        let next = match shifted.checked_add(d) {
            Some(x) => x,
            None => {
                proof {
                    lemma_digits_val_prefix_le(v@, i as int + 1);
                }
                return None;
            },
        };
        acc = next;
        i = i + 1;
    }
    proof {
        assert(v@.subrange(0, n as int) =~= v@);
    }
    Some(acc)
}

/// Decimal digits of `n`, most significant first.
pub open spec fn dec_digits(n: nat) -> Seq<u8>
    decreases n,
{
    if n < 10 {
        seq![(48 + n) as u8]
    } else {
        dec_digits(n / 10).push((48 + n % 10) as u8)
    }
}

/// Appends the decimal rendering of `n`.
pub fn push_decimal(out: &mut Vec<u8>, n: usize)
    ensures
        final(out)@ == old(out)@ + dec_digits(n as nat),
    decreases n,
{
    if n < 10 {
        out.push((48 + n) as u8);
        proof {
            assert(out@ =~= old(out)@ + dec_digits(n as nat));
        }
    } else {
        push_decimal(out, n / 10);
        out.push((48 + (n % 10)) as u8);
        proof {
            assert(out@ =~= old(out)@ + dec_digits(n as nat));
        }
    }
}

/// Copies a subrange of a slice into a fresh vector.
pub fn subrange_vec(v: &[u8], start: usize, end: usize) -> (r: Vec<u8>)
    requires
        start <= end <= v@.len(),
    ensures
        r@ == v@.subrange(start as int, end as int),
{
    let mut out: Vec<u8> = Vec::new();
    let mut i: usize = start;
    while i < end
        invariant
            start <= i <= end <= v@.len(),
            out@ == v@.subrange(start as int, i as int),
        decreases end - i,
    {
        out.push(*slice_index_get(v, i));
        proof {
            assert(out@ =~= v@.subrange(start as int, i as int + 1));
        }
        i = i + 1;
    }
    out
}

/// Relies on `String::from_utf8`: it succeeds exactly on valid UTF-8 and the
/// resulting string's bytes are the input bytes.
#[verifier::external_body]
pub fn string_from_utf8(v: Vec<u8>) -> (r: Option<String>)
    ensures
        (r is Some) == vstd::utf8::valid_utf8(v@),
        r matches Some(s) ==> vstd::utf8::encode_utf8(s@) == v@,
{
    String::from_utf8(v).ok()
}

/// ASCII lower-casing of one byte, as `u8::to_ascii_lowercase` does it.
pub open spec fn lower_byte(b: u8) -> u8 {
    if 65 <= b <= 90 {
        (b + 32) as u8
    } else {
        b
    }
}

pub open spec fn lower_bytes(s: Seq<u8>) -> Seq<u8> {
    s.map_values(|b: u8| lower_byte(b))
}

/// Lower-cases ASCII letters in a byte string.
pub fn to_lower_bytes(v: &[u8]) -> (r: Vec<u8>)
    ensures
        r@ == lower_bytes(v@),
{
    let mut out: Vec<u8> = Vec::new();
    let mut i: usize = 0;
    let n = v.len();
    while i < n
        invariant
            i <= n,
            n == v@.len(),
            out@ == lower_bytes(v@.subrange(0, i as int)),
        decreases n - i,
    {
        let b = *slice_index_get(v, i);
        let lb: u8 = if 65 <= b && b <= 90 {
            b + 32
        } else {
            b
        };
        out.push(lb);
        proof {
            assert(out@ =~= lower_bytes(v@.subrange(0, i as int + 1)));
        }
        i = i + 1;
    }
    proof {
        assert(v@.subrange(0, n as int) =~= v@);
    }
    out
}

} // verus!
