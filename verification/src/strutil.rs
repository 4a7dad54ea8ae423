//! Byte-level text operations used by the console-output scanner and the
//! test-case filter: substring search, ASCII lowering, and newline
//! splitting. All contracts are stated over the UTF-8 byte view of the
//! text.

use vstd::prelude::*;
use vstd::string::StringSliceAdditionalSpecFns;

verus! {

/// `needle` occurs as a contiguous run inside `hay`.
pub open spec fn spec_contains(hay: Seq<u8>, needle: Seq<u8>) -> bool {
    exists|i: int|
        0 <= i <= hay.len() - needle.len() && #[trigger] hay.subrange(i, i + needle.len())
            == needle
}

/// One byte, with an ASCII capital letter turned into its small form.
pub open spec fn lower_byte(b: u8) -> u8 {
    if 65 <= b <= 90 {
        (b + 32) as u8
    } else {
        b
    }
}

/// The text with every ASCII capital letter turned into its small form;
/// bytes of multi-byte characters are all at least 128, so they are
/// untouched.
pub open spec fn spec_lower(s: Seq<u8>) -> Seq<u8> {
    s.map_values(|b: u8| lower_byte(b))
}

/// The text split at every newline byte: one entry more than there are
/// newlines, in order, newlines not kept.
pub open spec fn spec_lines(s: Seq<u8>) -> Seq<Seq<u8>>
    decreases s.len(),
{
    if s.len() == 0 {
        seq![Seq::<u8>::empty()]
    } else if s[0] == 10 {
        seq![Seq::<u8>::empty()] + spec_lines(s.drop_first())
    } else {
        let rest = spec_lines(s.drop_first());
        seq![seq![s[0]] + rest[0]] + rest.drop_first()
    }
}

pub proof fn lemma_lines_nonempty(s: Seq<u8>)
    ensures
        spec_lines(s).len() >= 1,
    decreases s.len(),
{
    if s.len() > 0 {
        lemma_lines_nonempty(s.drop_first());
    }
}

/// Splitting at the first newline: a text whose first `k` bytes hold no
/// newline and whose `k`-th byte (if any) is one splits into its first `k`
/// bytes followed by the lines of the remainder.
pub proof fn lemma_lines_split(s: Seq<u8>, k: int)
    requires
        0 <= k <= s.len(),
        forall|j: int| 0 <= j < k ==> s[j] != 10,
        k < s.len() ==> s[k] == 10,
    ensures
        k == s.len() ==> spec_lines(s) == seq![s],
        k < s.len() ==> spec_lines(s) == seq![s.subrange(0, k)] + spec_lines(
            s.subrange(k + 1, s.len() as int),
        ),
    decreases s.len(),
{
    if k == 0 {
        if s.len() == 0 {
            assert(s =~= Seq::<u8>::empty());
            assert(spec_lines(s) =~= seq![s]);
        } else {
            assert(s[0] == 10);
            assert(s.subrange(0, 0) =~= Seq::<u8>::empty());
            assert(s.subrange(1, s.len() as int) =~= s.drop_first());
        }
    } else {
        let d = s.drop_first();
        lemma_lines_split(d, k - 1);
        lemma_lines_nonempty(d);
        let rest = spec_lines(d);
        if k == s.len() {
            assert(rest == seq![d]);
            assert(seq![s[0]] + rest[0] =~= s);
            assert(spec_lines(s) =~= seq![s]);
        } else {
            assert(d.subrange(0, k - 1) =~= s.subrange(1, k));
            assert(rest == seq![d.subrange(0, k - 1)] + spec_lines(
                d.subrange(k - 1 + 1, d.len() as int),
            ));
            assert(d.subrange(k, d.len() as int) =~= s.subrange(k + 1, s.len() as int));
            assert(seq![s[0]] + rest[0] =~= s.subrange(0, k));
            assert(rest.drop_first() =~= spec_lines(s.subrange(k + 1, s.len() as int)));
            assert(spec_lines(s) =~= seq![s.subrange(0, k)] + spec_lines(
                s.subrange(k + 1, s.len() as int),
            ));
        }
    }
}

/// Whether `needle` occurs as a contiguous run inside `hay`.
pub fn contains_bytes(hay: &[u8], needle: &[u8]) -> (r: bool)
    ensures
        r == spec_contains(hay@, needle@),
{
    let n = needle.len();
    let h = hay.len();
    if n > h {
        return false;
    }
    if n == 0 {
        proof {
            assert(hay@.subrange(0, 0 + needle@.len() as int) =~= needle@);
        }
        return true;
    }
    proof {
        assert(needle@.subrange(0, n as int) =~= needle@);
    }
    for i in 0..(h - n) + 1
        invariant
            n == needle@.len() && h == hay@.len() && n <= h,
            forall|p: int|
                0 <= p < i ==> #[trigger] hay@.subrange(p, p + needle@.len()) != needle@,
    {
        let mut matches = true;
        let mut j: usize = 0;
        while j < n
            invariant_except_break
                matches,
                n == needle@.len() && h == hay@.len() && n <= h,
                i <= h - n,
                j <= n,
                needle@.subrange(0, n as int) == needle@,
                hay@.subrange(i as int, i + j) == needle@.subrange(0, j as int),
            ensures
                n == needle@.len() && h == hay@.len() && n <= h,
                i <= h - n,
                matches == (hay@.subrange(i as int, i + n) == needle@),
            decreases n - j,
        {
            let ghost pre_hay = hay@.subrange(i as int, i + j);
            let ghost pre_needle = needle@.subrange(0, j as int);
            if hay[i + j] != needle[j] {
                matches = false;
                proof {
                    assert(hay@.subrange(i as int, i + n)[j as int] == hay@[i + j]);
                    assert(needle@[j as int] != hay@[i + j]);
                }
                break;
            }
            proof {
                assert(hay@.subrange(i as int, i + j + 1) =~= pre_hay.push(hay@[i + j]));
                assert(needle@.subrange(0, j + 1) =~= pre_needle.push(needle@[j as int]));
            }
            j += 1;
        }
        if matches {
            return true;
        }
    }
    false
}

/// The text with every ASCII capital letter turned into its small form.
pub fn to_lower_bytes(s: &[u8]) -> (r: Vec<u8>)
    ensures
        r@ == spec_lower(s@),
{
    let mut r: Vec<u8> = Vec::new();
    assert(s@.subrange(0, 0) =~= Seq::<u8>::empty());
    assert(r@ =~= spec_lower(s@.subrange(0, 0)));
    for i in 0..s.len()
        invariant
            r@ == spec_lower(s@.subrange(0, i as int)),
    {
        let b = s[i];
        if 65 <= b && b <= 90 {
            r.push(b + 32);
        } else {
            r.push(b);
        }
        proof {
            assert(s@.subrange(0, i + 1) =~= s@.subrange(0, i as int).push(s@[i as int]));
            assert(spec_lower(s@.subrange(0, i + 1)) =~= spec_lower(
                s@.subrange(0, i as int),
            ).push(lower_byte(s@[i as int])));
        }
    }
    proof {
        assert(s@.subrange(0, s@.len() as int) =~= s@);
    }
    r
}

/// The bytes of `s` between `a` and `b`, as an owned vector.
pub fn bytes_range(s: &[u8], a: usize, b: usize) -> (r: Vec<u8>)
    requires
        a <= b <= s@.len(),
    ensures
        r@ == s@.subrange(a as int, b as int),
{
    let mut r: Vec<u8> = Vec::new();
    assert(r@ =~= s@.subrange(a as int, a as int));
    for i in a..b
        invariant
            a <= i <= b <= s@.len(),
            r@ == s@.subrange(a as int, i as int),
    {
        r.push(s[i]);
        proof {
            assert(s@.subrange(a as int, i + 1) =~= s@.subrange(a as int, i as int).push(
                s@[i as int],
            ));
        }
    }
    r
}

/// The text split at every newline byte.
pub fn split_lines(s: &[u8]) -> (r: Vec<Vec<u8>>)
    ensures
        r@.map_values(|l: Vec<u8>| l@) == spec_lines(s@),
{
    let mut r: Vec<Vec<u8>> = Vec::new();
    let mut start: usize = 0;
    let len = s.len();
    proof {
        assert(r@.map_values(|l: Vec<u8>| l@) =~= Seq::<Seq<u8>>::empty());
        assert(s@.subrange(0, len as int) =~= s@);
    }
    for i in 0..len
        invariant
            start <= i <= len && len == s@.len(),
            forall|j: int| start <= j < i ==> s@[j] != 10,
            spec_lines(s@) =~= r@.map_values(|l: Vec<u8>| l@) + spec_lines(
                s@.subrange(start as int, len as int),
            ),
    {
        if s[i] == 10 {
            let line = bytes_range(s, start, i);
            let ghost pre = r@.map_values(|l: Vec<u8>| l@);
            r.push(line);
            proof {
                let t = s@.subrange(start as int, len as int);
                lemma_lines_split(t, i - start);
                assert(t.subrange(0, i - start) =~= s@.subrange(start as int, i as int));
                assert(t.subrange(i - start + 1, t.len() as int) =~= s@.subrange(
                    i + 1,
                    len as int,
                ));
                assert(r@.map_values(|l: Vec<u8>| l@) =~= pre.push(line@));
                assert(pre + (seq![line@] + spec_lines(s@.subrange(i + 1, len as int)))
                    =~= pre.push(line@) + spec_lines(s@.subrange(i + 1, len as int)));
            }
            start = i + 1;
        }
    }
    let line = bytes_range(s, start, len);
    let ghost pre = r@.map_values(|l: Vec<u8>| l@);
    r.push(line);
    proof {
        let t = s@.subrange(start as int, len as int);
        lemma_lines_split(t, t.len() as int);
        assert(r@.map_values(|l: Vec<u8>| l@) =~= pre.push(line@));
        assert(pre + seq![line@] =~= pre.push(line@));
    }
    r
}

/// `prefix` is the start of `s`.
pub open spec fn spec_starts_with(s: Seq<u8>, prefix: Seq<u8>) -> bool {
    prefix.len() <= s.len() && s.subrange(0, prefix.len() as int) == prefix
}

/// `suffix` is the end of `s`.
pub open spec fn spec_ends_with(s: Seq<u8>, suffix: Seq<u8>) -> bool {
    suffix.len() <= s.len() && s.subrange(s.len() - suffix.len(), s.len() as int) == suffix
}

/// Whether `s` starts with `prefix`.
pub fn starts_with_bytes(s: &[u8], prefix: &[u8]) -> (r: bool)
    ensures
        r == spec_starts_with(s@, prefix@),
{
    let n = prefix.len();
    if n > s.len() {
        return false;
    }
    for i in 0..n
        invariant
            n == prefix@.len() && n <= s@.len(),
            forall|j: int| 0 <= j < i ==> s@[j] == prefix@[j],
    {
        if s[i] != prefix[i] {
            proof {
                assert(s@.subrange(0, prefix@.len() as int)[i as int] != prefix@[i as int]);
            }
            return false;
        }
    }
    proof {
        assert(s@.subrange(0, prefix@.len() as int) =~= prefix@);
    }
    true
}

/// Whether `s` ends with `suffix`.
pub fn ends_with_bytes(s: &[u8], suffix: &[u8]) -> (r: bool)
    ensures
        r == spec_ends_with(s@, suffix@),
{
    let n = suffix.len();
    let len = s.len();
    if n > len {
        return false;
    }
    let base = len - n;
    for i in 0..n
        invariant
            n == suffix@.len() && len == s@.len() && n <= len && base == len - n,
            forall|j: int| 0 <= j < i ==> s@[base + j] == suffix@[j],
    {
        if s[base + i] != suffix[i] {
            proof {
                assert(s@.subrange(s@.len() - suffix@.len(), s@.len() as int)[i as int]
                    != suffix@[i as int]);
            }
            return false;
        }
    }
    proof {
        assert(s@.subrange(s@.len() - suffix@.len(), s@.len() as int) =~= suffix@);
    }
    true
}

/// Whether two texts are equal, judged on UTF-8 bytes.
pub fn str_eq(a: &str, b: &str) -> (r: bool)
    ensures
        r == (a.spec_bytes() == b.spec_bytes()),
{
    let ab = a.as_bytes();
    let bb = b.as_bytes();
    if ab.len() != bb.len() {
        return false;
    }
    for i in 0..ab.len()
        invariant
            ab@ == a.spec_bytes() && bb@ == b.spec_bytes(),
            ab@.len() == bb@.len(),
            forall|j: int| 0 <= j < i ==> ab@[j] == bb@[j],
    {
        if ab[i] != bb[i] {
            return false;
        }
    }
    proof {
        assert(ab@ =~= bb@);
    }
    true
}

/// `a` comes no later than `b` in byte-wise lexicographic order.
pub open spec fn bytes_le(a: Seq<u8>, b: Seq<u8>) -> bool
    decreases a.len(),
{
    if a.len() == 0 {
        true
    } else if b.len() == 0 {
        false
    } else if a[0] < b[0] {
        true
    } else if a[0] > b[0] {
        false
    } else {
        bytes_le(a.drop_first(), b.drop_first())
    }
}

pub proof fn lemma_bytes_le_refl(a: Seq<u8>)
    ensures
        bytes_le(a, a),
    decreases a.len(),
{
    if a.len() > 0 {
        lemma_bytes_le_refl(a.drop_first());
    }
}

pub proof fn lemma_bytes_le_total(a: Seq<u8>, b: Seq<u8>)
    ensures
        bytes_le(a, b) || bytes_le(b, a),
    decreases a.len(),
{
    if a.len() > 0 && b.len() > 0 && a[0] == b[0] {
        lemma_bytes_le_total(a.drop_first(), b.drop_first());
    }
}

pub proof fn lemma_bytes_le_trans(a: Seq<u8>, b: Seq<u8>, c: Seq<u8>)
    requires
        bytes_le(a, b),
        bytes_le(b, c),
    ensures
        bytes_le(a, c),
    decreases a.len(),
{
    if a.len() > 0 && b.len() > 0 && c.len() > 0 && a[0] == b[0] && b[0] == c[0] {
        lemma_bytes_le_trans(a.drop_first(), b.drop_first(), c.drop_first());
    }
}

/// The texts stand in ascending byte-wise lexicographic order.
pub open spec fn strings_sorted(s: Seq<String>) -> bool {
    forall|i: int, j: int|
        0 <= i <= j < s.len() ==> bytes_le(
            vstd::utf8::encode_utf8(#[trigger] s[i]@),
            vstd::utf8::encode_utf8(#[trigger] s[j]@),
        )
}

/// Whether `a` comes no later than `b`, judged on UTF-8 bytes.
pub fn str_le(a: &str, b: &str) -> (r: bool)
    ensures
        r == bytes_le(a.spec_bytes(), b.spec_bytes()),
{
    let ab = a.as_bytes();
    let bb = b.as_bytes();
    let mut i: usize = 0;
    proof {
        assert(ab@.skip(0) =~= ab@);
        assert(bb@.skip(0) =~= bb@);
    }
    loop
        invariant
            ab@ == a.spec_bytes() && bb@ == b.spec_bytes(),
            i <= ab@.len() && i <= bb@.len(),
            bytes_le(ab@, bb@) == bytes_le(ab@.skip(i as int), bb@.skip(i as int)),
        decreases ab@.len() - i,
    {
        if i == ab.len() {
            return true;
        }
        if i == bb.len() {
            return false;
        }
        proof {
            assert(ab@.skip(i as int)[0] == ab@[i as int]);
            assert(bb@.skip(i as int)[0] == bb@[i as int]);
            assert(ab@.skip(i as int).drop_first() =~= ab@.skip(i + 1));
            assert(bb@.skip(i as int).drop_first() =~= bb@.skip(i + 1));
        }
        if ab[i] < bb[i] {
            return true;
        }
        if ab[i] > bb[i] {
            return false;
        }
        i += 1;
    }
}

proof fn lemma_strings_to_multiset_insert(s: Seq<String>, i: int, a: String)
    requires
        0 <= i <= s.len(),
    ensures
        s.insert(i, a).to_multiset() =~= s.to_multiset().insert(a),
{
    broadcast use vstd::seq_lib::group_to_multiset_ensures;

    let pre = s.subrange(0, i);
    let post = s.subrange(i, s.len() as int);
    assert(s.insert(i, a) =~= pre.push(a) + post);
    vstd::seq_lib::lemma_multiset_commutative(pre.push(a), post);
    vstd::seq_lib::lemma_multiset_commutative(pre, post);
    assert(pre + post =~= s);
}

/// Returns the texts in ascending byte-wise lexicographic order (an
/// insertion sort); exactly the given texts, as a multiset.
pub fn sort_strings(items: Vec<String>) -> (r: Vec<String>)
    ensures
        strings_sorted(r@),
        r@.to_multiset() == items@.to_multiset(),
        r@.len() == items@.len(),
{
    broadcast use vstd::seq_lib::group_to_multiset_ensures;

    let ghost all = items@;
    let mut items = items;
    let mut r: Vec<String> = Vec::new();
    let n = items.len();
    proof {
        assert(all.subrange(0, 0) =~= Seq::<String>::empty());
    }
    for i in 0..n
        invariant
            n == all.len(),
            items@ == all.skip(i as int),
            strings_sorted(r@),
            r@.to_multiset() == all.subrange(0, i as int).to_multiset(),
            r@.len() == i,
    {
        proof {
            assert(all.skip(i as int)[0] == all[i as int]);
            assert(all.skip(i as int).drop_first() =~= all.skip(i + 1));
        }
        let x = items.remove(0);
        let ghost xv = x@;
        let mut j: usize = 0;
        while j < r.len() && str_le(r[j].as_str(), x.as_str())
            invariant
                j <= r@.len(),
                forall|k: int|
                    0 <= k < j ==> bytes_le(
                        vstd::utf8::encode_utf8(#[trigger] r@[k]@),
                        vstd::utf8::encode_utf8(xv),
                    ),
                x@ == xv,
            decreases r@.len() - j,
        {
            j += 1;
        }
        let ghost old_r = r@;
        r.insert(j, x);
        proof {
            assert forall|p: int, q: int| 0 <= p <= q < r@.len() implies bytes_le(
                vstd::utf8::encode_utf8(#[trigger] r@[p]@),
                vstd::utf8::encode_utf8(#[trigger] r@[q]@),
            ) by {
                let jj = j as int;
                if p < jj && q == jj {
                    assert(r@[p] == old_r[p]);
                } else if p == jj && q == jj {
                    lemma_bytes_le_refl(vstd::utf8::encode_utf8(xv));
                } else if p == jj && q > jj {
                    assert(r@[q] == old_r[q - 1]);
                    assert(!bytes_le(
                        vstd::utf8::encode_utf8(old_r[jj]@),
                        vstd::utf8::encode_utf8(xv),
                    ));
                    lemma_bytes_le_total(
                        vstd::utf8::encode_utf8(old_r[jj]@),
                        vstd::utf8::encode_utf8(xv),
                    );
                    lemma_bytes_le_trans(
                        vstd::utf8::encode_utf8(xv),
                        vstd::utf8::encode_utf8(old_r[jj]@),
                        vstd::utf8::encode_utf8(old_r[q - 1]@),
                    );
                } else if p < jj && q > jj {
                    assert(r@[p] == old_r[p] && r@[q] == old_r[q - 1]);
                } else if p > jj && q > jj {
                    assert(r@[p] == old_r[p - 1] && r@[q] == old_r[q - 1]);
                } else if p < jj && q < jj {
                    assert(r@[p] == old_r[p] && r@[q] == old_r[q]);
                }
            }
            lemma_strings_to_multiset_insert(old_r, j as int, x);
            assert(all.subrange(0, i + 1) =~= all.subrange(0, i as int).push(all[i as int]));
            vstd::seq_lib::to_multiset_build(all.subrange(0, i as int), all[i as int]);
        }
    }
    proof {
        assert(all.subrange(0, n as int) =~= all);
    }
    r
}

/// Equal byte encodings come only from equal texts: UTF-8 encoding is
/// injective.
pub proof fn lemma_encode_utf8_injective(a: Seq<char>, b: Seq<char>)
    requires
        vstd::utf8::encode_utf8(a) == vstd::utf8::encode_utf8(b),
    ensures
        a == b,
{
    vstd::utf8::encode_utf8_decode_utf8(a);
    vstd::utf8::encode_utf8_decode_utf8(b);
}

/// Whether two texts are equal; the bytes agree exactly when the texts do.
pub fn str_eq_view(a: &str, b: &str) -> (r: bool)
    ensures
        r == (a@ == b@),
{
    let r = str_eq(a, b);
    proof {
        if r {
            lemma_encode_utf8_injective(a@, b@);
        }
    }
    r
}

/// Whether `needle` occurs as a substring of `hay`, judged on UTF-8 bytes.
pub fn str_contains(hay: &str, needle: &str) -> (r: bool)
    ensures
        r == spec_contains(hay.spec_bytes(), needle.spec_bytes()),
{
    contains_bytes(hay.as_bytes(), needle.as_bytes())
}

} // verus!
