//! Variant normalization and classification.
//!
//! The normalizer trims shared trailing bases, then shared leading bases,
//! from a `(reference, alternate)` allele pair, adjusting the position by the
//! number of leading bases removed. At either boundary, if a trim would empty
//! one of the alleles, one shared base is retained as an anchor so that both
//! results stay non-empty.

use vstd::prelude::*;
use vstd::string::StrSliceExecFns;

use crate::errors::Error;
use crate::VariantType;

verus! {

/// The sixteen permitted nucleotide and ambiguity codes, uppercase only.
pub open spec fn valid_symbol(c: char) -> bool {
    ||| c == 'A'
    ||| c == 'C'
    ||| c == 'G'
    ||| c == 'T'
    ||| c == 'U'
    ||| c == 'R'
    ||| c == 'Y'
    ||| c == 'K'
    ||| c == 'M'
    ||| c == 'S'
    ||| c == 'W'
    ||| c == 'B'
    ||| c == 'D'
    ||| c == 'H'
    ||| c == 'V'
    ||| c == 'N'
}

/// An allele is valid when it is non-empty and every character is an
/// allowed symbol.
pub open spec fn valid_allele(s: Seq<char>) -> bool {
    s.len() > 0 && (forall|i: int| 0 <= i < s.len() ==> valid_symbol(s[i]))
}

/// Number of consecutive matching characters of `r` and `a`, compared from
/// the left ends, stopping at the first mismatch or when either runs out.
pub open spec fn shared_prefix_len(r: Seq<char>, a: Seq<char>) -> nat
    decreases r.len(),
{
    if r.len() == 0 || a.len() == 0 || r[0] != a[0] {
        0
    } else {
        1 + shared_prefix_len(r.skip(1), a.skip(1))
    }
}

/// The character of `s` at offset `j` from its right end.
pub open spec fn end_char(s: Seq<char>, j: int) -> char {
    s[s.len() - 1 - j]
}

/// Number of consecutive matching characters of `r` and `a`, compared from
/// the right ends, stopping at the first mismatch or when either runs out.
pub open spec fn shared_suffix_len(r: Seq<char>, a: Seq<char>) -> nat
    decreases r.len(),
{
    if r.len() == 0 || a.len() == 0 || r.last() != a.last() {
        0
    } else {
        1 + shared_suffix_len(r.drop_last(), a.drop_last())
    }
}

/// `shared_prefix_len` is bounded by both lengths, the characters below it
/// match pairwise, and the characters just past it (when both exist) differ.
pub proof fn lemma_shared_prefix_len_props(r: Seq<char>, a: Seq<char>)
    ensures
        shared_prefix_len(r, a) <= r.len(),
        shared_prefix_len(r, a) <= a.len(),
        forall|j: int| 0 <= j < shared_prefix_len(r, a) ==> r[j] == a[j],
        shared_prefix_len(r, a) < r.len() && shared_prefix_len(r, a) < a.len() ==> r[
            shared_prefix_len(r, a) as int
        ] != a[shared_prefix_len(r, a) as int],
    decreases r.len(),
{
    if r.len() == 0 || a.len() == 0 || r[0] != a[0] {
    } else {
        lemma_shared_prefix_len_props(r.skip(1), a.skip(1));
        let p = shared_prefix_len(r, a);
        assert(forall|j: int| 1 <= j < p ==> r[j] == r.skip(1)[j - 1] && a[j] == a.skip(1)[j - 1]);
        if p < r.len() && p < a.len() {
            assert(r.skip(1)[p - 1] != a.skip(1)[p - 1]);
        }
    }
}

/// `shared_suffix_len` is bounded by both lengths, the characters within it
/// (counted from the right ends) match pairwise, and the next pair inward
/// (when both exist) differs.
pub proof fn lemma_shared_suffix_len_props(r: Seq<char>, a: Seq<char>)
    ensures
        shared_suffix_len(r, a) <= r.len(),
        shared_suffix_len(r, a) <= a.len(),
        forall|j: int|
            0 <= j < shared_suffix_len(r, a) ==> #[trigger] end_char(r, j) == end_char(a, j),
        shared_suffix_len(r, a) < r.len() && shared_suffix_len(r, a) < a.len() ==> end_char(
            r,
            shared_suffix_len(r, a) as int,
        ) != end_char(a, shared_suffix_len(r, a) as int),
    decreases r.len(),
{
    if r.len() == 0 || a.len() == 0 || r.last() != a.last() {
    } else {
        lemma_shared_suffix_len_props(r.drop_last(), a.drop_last());
        let s = shared_suffix_len(r, a);
        assert(forall|j: int|
            1 <= j < s ==> #[trigger] end_char(r, j) == end_char(r.drop_last(), j - 1) && end_char(
                a,
                j,
            ) == end_char(a.drop_last(), j - 1));
        assert(end_char(r, 0) == end_char(a, 0));
        if s < r.len() && s < a.len() {
            assert(end_char(r.drop_last(), s - 1) != end_char(a.drop_last(), s - 1));
        }
    }
}

/// A count with the three properties of `lemma_shared_prefix_len_props`
/// is the shared prefix length: the characterization is unique.
proof fn lemma_shared_prefix_len_unique(r: Seq<char>, a: Seq<char>, n: nat)
    requires
        n <= r.len(),
        n <= a.len(),
        forall|j: int| 0 <= j < n ==> r[j] == a[j],
        n < r.len() && n < a.len() ==> r[n as int] != a[n as int],
    ensures
        n == shared_prefix_len(r, a),
{
    lemma_shared_prefix_len_props(r, a);
    let p = shared_prefix_len(r, a);
    if n < p {
        assert(r[n as int] == a[n as int]);
    } else if p < n {
        assert(r[p as int] == a[p as int]);
    }
}

/// A count with the three properties of `lemma_shared_suffix_len_props`
/// is the shared suffix length: the characterization is unique.
proof fn lemma_shared_suffix_len_unique(r: Seq<char>, a: Seq<char>, n: nat)
    requires
        n <= r.len(),
        n <= a.len(),
        forall|j: int| 0 <= j < n ==> #[trigger] end_char(r, j) == end_char(a, j),
        n < r.len() && n < a.len() ==> end_char(r, n as int) != end_char(a, n as int),
    ensures
        n == shared_suffix_len(r, a),
{
    lemma_shared_suffix_len_props(r, a);
    let s = shared_suffix_len(r, a);
    if n < s {
        assert(end_char(r, n as int) == end_char(a, n as int));
    } else if s < n {
        assert(end_char(r, s as int) == end_char(a, s as int));
    }
}

/// How many trailing characters the trailing trim removes from each allele:
/// the shared suffix length, reduced by one when removing it all would empty
/// one of the alleles (the anchor-base boundary rule).
pub open spec fn trailing_trim_count(r: Seq<char>, a: Seq<char>) -> nat {
    let s = shared_suffix_len(r, a);
    if (s == r.len() || s == a.len()) && s > 0 {
        (s - 1) as nat
    } else {
        s
    }
}

/// How many leading characters the leading trim removes from each allele:
/// the shared prefix length, reduced by one when removing it all would empty
/// one of the alleles (the anchor-base boundary rule).
pub open spec fn leading_trim_count(r: Seq<char>, a: Seq<char>) -> nat {
    let p = shared_prefix_len(r, a);
    if (p == r.len() || p == a.len()) && p > 0 {
        (p - 1) as nat
    } else {
        p
    }
}

/// The allele pair after the trailing trim.
pub open spec fn trim_trailing_spec(r: Seq<char>, a: Seq<char>) -> (Seq<char>, Seq<char>) {
    let k = trailing_trim_count(r, a) as int;
    (r.take(r.len() - k), a.take(a.len() - k))
}

/// The full normalization of a validated triple: trailing trim, then leading
/// trim, with the position advanced by the number of leading characters
/// removed.
pub open spec fn normalize_spec(position: int, r: Seq<char>, a: Seq<char>) -> (
    int,
    Seq<char>,
    Seq<char>,
) {
    let t = trim_trailing_spec(r, a);
    let k = leading_trim_count(t.0, t.1) as int;
    (position + k, t.0.skip(k), t.1.skip(k))
}

/// On non-empty alleles, each trim removes strictly fewer characters than
/// either allele holds, so neither result is ever empty.
pub proof fn lemma_trim_counts_lt(r: Seq<char>, a: Seq<char>)
    requires
        r.len() > 0,
        a.len() > 0,
    ensures
        trailing_trim_count(r, a) < r.len(),
        trailing_trim_count(r, a) < a.len(),
        leading_trim_count(r, a) < r.len(),
        leading_trim_count(r, a) < a.len(),
{
    lemma_shared_prefix_len_props(r, a);
    lemma_shared_suffix_len_props(r, a);
}

fn is_valid_symbol(c: char) -> (b: bool)
    ensures
        b == valid_symbol(c),
{
    c == 'A' || c == 'C' || c == 'G' || c == 'T' || c == 'U' || c == 'R' || c == 'Y' || c == 'K'
        || c == 'M' || c == 'S' || c == 'W' || c == 'B' || c == 'D' || c == 'H' || c == 'V'
        || c == 'N'
}

fn all_valid_symbols(s: &str) -> (b: bool)
    ensures
        b == (forall|i: int| 0 <= i < s@.len() ==> valid_symbol(s@[i])),
{
    let n = s.unicode_len();
    let mut j: usize = 0;
    while j < n
        invariant
            n == s@.len(),
            j <= n,
            forall|i: int| 0 <= i < j ==> valid_symbol(s@[i]),
        decreases n - j,
    {
        if !is_valid_symbol(s.get_char(j)) {
            return false;
        }
        j = j + 1;
    }
    true
}

/// Counts the consecutive matching characters of the two strings from their
/// left ends.
fn count_shared(r: &str, a: &str) -> (i: usize)
    ensures
        i == shared_prefix_len(r@, a@),
{
    let rl = r.unicode_len();
    let al = a.unicode_len();
    let mut i: usize = 0;
    while i < rl && i < al && r.get_char(i) == a.get_char(i)
        invariant
            rl == r@.len(),
            al == a@.len(),
            i <= rl,
            i <= al,
            forall|j: int| 0 <= j < i ==> r@[j] == a@[j],
        decreases rl - i,
    {
        i = i + 1;
    }
    proof {
        lemma_shared_prefix_len_unique(r@, a@, i as nat);
    }
    i
}

/// Counts the consecutive matching characters of the two strings from their
/// right ends.
fn count_shared_trailing(r: &str, a: &str) -> (i: usize)
    ensures
        i == shared_suffix_len(r@, a@),
{
    let rl = r.unicode_len();
    let al = a.unicode_len();
    let mut i: usize = 0;
    while i < rl && i < al && r.get_char(rl - 1 - i) == a.get_char(al - 1 - i)
        invariant
            rl == r@.len(),
            al == a@.len(),
            i <= rl,
            i <= al,
            forall|j: int| 0 <= j < i ==> #[trigger] end_char(r@, j) == end_char(a@, j),
        decreases rl - i,
    {
        proof {
            assert(end_char(r@, i as int) == end_char(a@, i as int));
        }
        i = i + 1;
    }
    proof {
        if i < rl && i < al {
            assert(end_char(r@, i as int) != end_char(a@, i as int));
        }
        lemma_shared_suffix_len_unique(r@, a@, i as nat);
    }
    i
}

/// Removes the shared trailing characters from both alleles, keeping one as
/// an anchor if the removal would empty either of them. The position is not
/// affected by this pass.
fn trim_trailing_shared_bases<'b>(reference: &'b str, alternate: &'b str) -> (res: (&'b str, &'b str))
    requires
        reference@.len() > 0,
        alternate@.len() > 0,
    ensures
        res.0@ == trim_trailing_spec(reference@, alternate@).0,
        res.1@ == trim_trailing_spec(reference@, alternate@).1,
        res.0@.len() > 0,
        res.1@.len() > 0,
{
    let i = count_shared_trailing(reference, alternate);
    proof {
        lemma_shared_suffix_len_props(reference@, alternate@);
    }
    let rl = reference.unicode_len();
    let al = alternate.unicode_len();
    let mut p1: usize = rl - i;
    let mut p2: usize = al - i;

    if p1 == 0 || p2 == 0 {
        p1 = p1 + 1;
        p2 = p2 + 1;
    }

    (reference.substring_char(0, p1), alternate.substring_char(0, p2))
}

/// Removes the shared leading characters from both alleles, keeping one as
/// an anchor if the removal would empty either of them, and advances the
/// position by the number of characters removed.
fn trim_leading_shared_bases<'b>(position: u64, reference: &'b str, alternate: &'b str) -> (res: (
    u64,
    &'b str,
    &'b str,
))
    requires
        reference@.len() > 0,
        alternate@.len() > 0,
        position + leading_trim_count(reference@, alternate@) <= u64::MAX,
    ensures
        res.0 == position + leading_trim_count(reference@, alternate@),
        res.1@ == reference@.skip(leading_trim_count(reference@, alternate@) as int),
        res.2@ == alternate@.skip(leading_trim_count(reference@, alternate@) as int),
        res.1@.len() > 0,
        res.2@.len() > 0,
{
    let mut i = count_shared(reference, alternate);
    proof {
        lemma_shared_prefix_len_props(reference@, alternate@);
    }
    let rl = reference.unicode_len();
    let al = alternate.unicode_len();

    if i == rl || i == al {
        i = i - 1;
    }

    (position + i as u64, reference.substring_char(i, rl), alternate.substring_char(i, al))
}

/// Normalizes a variant record into its minimal canonical form.
///
/// Both alleles are validated first: each must be non-empty and consist only
/// of the sixteen allowed symbols, and each failure is reported as its own
/// error variant. On success, the shared trailing bases and then the shared
/// leading bases are trimmed, the position is advanced by the number of
/// leading bases removed, and both returned alleles are non-empty substrings
/// of the inputs.
pub fn normalize<'a>(position: u64, reference: &'a str, alternate: &'a str) -> (res: Result<
    (u64, &'a str, &'a str),
    Error,
>)
    requires
        valid_allele(reference@) && valid_allele(alternate@) ==> position + reference@.len()
            <= u64::MAX,
    ensures
        res is Ok <==> valid_allele(reference@) && valid_allele(alternate@),
        (res matches Err(e) && e matches Error::RefBasesEmptyError()) <==> reference@.len() == 0,
        (res matches Err(e) && e matches Error::AltBasesEmptyError()) <==> (reference@.len() > 0
            && alternate@.len() == 0),
        (res matches Err(e) && e matches Error::RefBasesInvalidSymbolError(s) && s@ == reference@)
            <==> (reference@.len() > 0 && alternate@.len() > 0 && !valid_allele(reference@)),
        (res matches Err(e) && e matches Error::AltBasesInvalidSymbolError(s) && s@ == alternate@)
            <==> (valid_allele(reference@) && alternate@.len() > 0 && !valid_allele(alternate@)),
        res matches Ok(t) ==> {
            let n = normalize_spec(position as int, reference@, alternate@);
            &&& t.0 == n.0
            &&& t.1@ == n.1
            &&& t.2@ == n.2
            &&& t.0 >= position
            &&& t.1@.len() > 0
            &&& t.2@.len() > 0
            &&& valid_allele(t.1@)
            &&& valid_allele(t.2@)
        },
{
    if reference.is_empty() {
        return Err(Error::RefBasesEmptyError());
    }

    if alternate.is_empty() {
        return Err(Error::AltBasesEmptyError());
    }

    if !all_valid_symbols(reference) {
        return Err(Error::RefBasesInvalidSymbolError(reference.to_owned()));
    }

    if !all_valid_symbols(alternate) {
        return Err(Error::AltBasesInvalidSymbolError(alternate.to_owned()));
    }

    let (r, a) = trim_trailing_shared_bases(reference, alternate);

    proof {
        lemma_shared_suffix_len_props(reference@, alternate@);
        lemma_shared_prefix_len_props(r@, a@);
        assert(r@.len() <= reference@.len());
        assert(leading_trim_count(r@, a@) <= r@.len());
    }

    let (p, r, a) = trim_leading_shared_bases(position, r, a);

    proof {
        assert(forall|i: int| 0 <= i < r@.len() ==> valid_symbol(#[trigger] r@[i]));
        assert(forall|i: int| 0 <= i < a@.len() ==> valid_symbol(#[trigger] a@[i]));
    }

    Ok((p, r, a))
}

/// Normalization is idempotent: a normalized allele pair is minimal, in that
/// neither trim has anything left to remove from it, so applying `normalize`
/// to its own output yields that output unchanged.
pub proof fn lemma_normalize_idempotent(position: int, r: Seq<char>, a: Seq<char>)
    requires
        valid_allele(r),
        valid_allele(a),
    ensures
        ({
            let n1 = normalize_spec(position, r, a);
            let n2 = normalize_spec(n1.0, n1.1, n1.2);
            &&& trailing_trim_count(n1.1, n1.2) == 0
            &&& leading_trim_count(n1.1, n1.2) == 0
            &&& n2.0 == n1.0
            &&& n2.1 == n1.1
            &&& n2.2 == n1.2
        }),
{
    let s = shared_suffix_len(r, a);
    let r1 = trim_trailing_spec(r, a).0;
    let a1 = trim_trailing_spec(r, a).1;
    lemma_shared_suffix_len_props(r, a);
    lemma_trim_counts_lt(r, a);

    // After the trailing trim, the trailing trim has nothing left to do:
    // either the last characters differ, or one allele is the single
    // retained anchor base.
    if (s == r.len() || s == a.len()) && s > 0 {
        assert(end_char(r1, 0) == end_char(r, s - 1));
        assert(end_char(a1, 0) == end_char(a, s - 1));
        lemma_shared_suffix_len_unique(r1, a1, 1);
    } else {
        assert(s < r.len() && s < a.len());
        assert(end_char(r1, 0) == end_char(r, s as int));
        assert(end_char(a1, 0) == end_char(a, s as int));
        lemma_shared_suffix_len_unique(r1, a1, 0);
    }
    assert(trailing_trim_count(r1, a1) == 0);

    let p = shared_prefix_len(r1, a1);
    let k1 = leading_trim_count(r1, a1) as int;
    let r2 = r1.skip(k1);
    let a2 = a1.skip(k1);
    lemma_shared_prefix_len_props(r1, a1);
    lemma_trim_counts_lt(r1, a1);

    // After the leading trim, the leading trim has nothing left to do
    // either: the first characters differ, or one allele is the single
    // retained anchor base.
    if (p == r1.len() || p == a1.len()) && p > 0 {
        assert(r2[0] == r1[p - 1] && a2[0] == a1[p - 1]);
        lemma_shared_prefix_len_unique(r2, a2, 1);
    } else {
        assert(p < r1.len() && p < a1.len());
        assert(r2[0] == r1[p as int] && a2[0] == a1[p as int]);
        lemma_shared_prefix_len_unique(r2, a2, 0);
    }
    assert(leading_trim_count(r2, a2) == 0);

    // The leading trim does not disturb the right ends, so the trailing trim
    // stays idle on the final pair as well.
    assert(end_char(r2, 0) == end_char(r1, 0) && end_char(a2, 0) == end_char(a1, 0));
    if shared_suffix_len(r1, a1) == 0 {
        lemma_shared_suffix_len_props(r1, a1);
        lemma_shared_suffix_len_unique(r2, a2, 0);
    } else {
        lemma_shared_suffix_len_unique(r2, a2, 1);
    }
    assert(trailing_trim_count(r2, a2) == 0);

    let n1 = normalize_spec(position, r, a);
    let n2 = normalize_spec(n1.0, n1.1, n1.2);
    assert(trim_trailing_spec(r2, a2).0 =~= r2);
    assert(trim_trailing_spec(r2, a2).1 =~= a2);
    assert(n2.1 =~= r2);
    assert(n2.2 =~= a2);
}

/// The structural type of an allele pair, by the first matching rule:
/// single-base change, equal-length change, anchored insertion, anchored
/// deletion, unanchored length change, or no type when the pair is identical.
pub open spec fn variant_type_spec(r: Seq<char>, a: Seq<char>) -> Option<VariantType> {
    if r.len() == 1 && a.len() == 1 && a != r {
        Some(VariantType::SNV)
    } else if r.len() == a.len() && a != r {
        Some(VariantType::MNV)
    } else if r.len() == 1 && a.len() > 1 && r[0] == a[0] {
        Some(VariantType::Insertion)
    } else if a.len() == 1 && r.len() > 1 && r[0] == a[0] {
        Some(VariantType::Deletion)
    } else if r.len() != a.len() {
        Some(VariantType::Indel)
    } else {
        None
    }
}

/// Compares two strings character by character.
fn eq_chars(r: &str, a: &str) -> (b: bool)
    ensures
        b == (r@ == a@),
{
    let rl = r.unicode_len();
    let al = a.unicode_len();
    if rl != al {
        return false;
    }
    let mut j: usize = 0;
    while j < rl
        invariant
            rl == r@.len(),
            al == a@.len(),
            rl == al,
            j <= rl,
            forall|k: int| 0 <= k < j ==> r@[k] == a@[k],
        decreases rl - j,
    {
        if r.get_char(j) != a.get_char(j) {
            return false;
        }
        j = j + 1;
    }
    proof {
        assert(r@ =~= a@);
    }
    true
}

/// Classifies an allele pair by structural type, or returns no type when the
/// two alleles are identical.
///
/// The function accepts any two allele strings; it is meant to be called on
/// the output of [`normalize`], but imposes no such precondition.
pub fn variant_type(reference: &str, alternate: &str) -> (res: Option<VariantType>)
    ensures
        res == variant_type_spec(reference@, alternate@),
        reference@ == alternate@ ==> res is None,
{
    let rl = reference.unicode_len();
    let al = alternate.unicode_len();
    let eq = eq_chars(reference, alternate);

    if rl == 1 && al == 1 && !eq {
        Some(VariantType::SNV)
    } else if rl == al && !eq {
        Some(VariantType::MNV)
    } else if rl == 1 && al > 1 && reference.get_char(0) == alternate.get_char(0) {
        Some(VariantType::Insertion)
    } else if al == 1 && rl > 1 && reference.get_char(0) == alternate.get_char(0) {
        Some(VariantType::Deletion)
    } else if rl != al {
        Some(VariantType::Indel)
    } else {
        None
    }
}

} // verus!
