//! Sequence-level model and executable helpers for the string transforms:
//! whitespace-stripping normalization, alphabet filtering and substring
//! screening.

use vstd::prelude::*;

use crate::chars::is_space;
use crate::chars::is_upper_or_digit;
use crate::chars::space_char;
use crate::chars::to_upper;
use crate::chars::upper_char;

verus! {

/// Normalized form of a character sequence: every whitespace character is
/// removed and the survivors are ASCII upper-cased, preserving order.
pub open spec fn norm_seq(s: Seq<char>) -> Seq<char>
    decreases s.len(),
{
    if s.len() == 0 {
        Seq::empty()
    } else {
        let rest = norm_seq(s.drop_last());
        if is_space(s.last()) {
            rest
        } else {
            rest.push(to_upper(s.last()))
        }
    }
}

/// The subsequence of `s` made of the characters that occur in `alpha`,
/// in their original order.
pub open spec fn keep_alpha(s: Seq<char>, alpha: Seq<char>) -> Seq<char>
    decreases s.len(),
{
    if s.len() == 0 {
        Seq::empty()
    } else {
        let rest = keep_alpha(s.drop_last(), alpha);
        if alpha.contains(s.last()) {
            rest.push(s.last())
        } else {
            rest
        }
    }
}

/// Sanitized form of a sequence: normalize, then drop every character
/// that is not in the alphabet.
pub open spec fn sanitize_spec(s: Seq<char>, alpha: Seq<char>) -> Seq<char> {
    keep_alpha(norm_seq(s), alpha)
}

/// `needle` occurs in `hay` as a contiguous run starting at index `i`.
pub open spec fn is_substring_at(hay: Seq<char>, needle: Seq<char>, i: int) -> bool {
    &&& 0 <= i
    &&& i + needle.len() <= hay.len()
    &&& hay.subrange(i, i + needle.len() as int) == needle
}

/// `needle` occurs somewhere in `hay` as a contiguous run.
pub open spec fn contains_seq(hay: Seq<char>, needle: Seq<char>) -> bool {
    exists|i: int| is_substring_at(hay, needle, i)
}

/// Some element of `banned` occurs in `s` as a contiguous run.
pub open spec fn has_banned(s: Seq<char>, banned: Seq<Seq<char>>) -> bool {
    exists|j: int| 0 <= j < banned.len() && contains_seq(s, banned[j])
}

/// A character that normalization leaves alone: not whitespace and fixed
/// by upper-casing.
pub open spec fn clean_char(c: char) -> bool {
    !is_space(c) && to_upper(c) == c
}

/// Relies on `String: FromIterator<char>`: collecting an iterator of
/// characters yields the string of exactly those characters, in order.
#[verifier::external_body]
pub(crate) fn chars_to_string(v: &Vec<char>) -> (r: String)
    ensures
        r@ == v@,
{
    v.iter().collect()
}

/// The characters of `s`, as a vector.
pub fn str_chars(s: &str) -> (v: Vec<char>)
    ensures
        v@ == s@,
{
    let len = s.unicode_len();
    let mut v: Vec<char> = Vec::new();
    let mut i: usize = 0;
    while i < len
        invariant
            len == s@.len(),
            i <= len,
            v@ == s@.take(i as int),
        decreases len - i,
    {
        v.push(s.get_char(i));
        proof {
            assert(s@.take(i + 1 as int) =~= s@.take(i as int).push(s@[i as int]));
        }
        i = i + 1;
    }
    proof {
        assert(s@.take(len as int) =~= s@);
    }
    v
}

/// Normalizes a string: strips all whitespace and ASCII upper-cases the
/// remaining characters.
pub fn normalize_str(s: &str) -> (r: String)
    ensures
        r@ == norm_seq(s@),
{
    let len = s.unicode_len();
    let mut out: Vec<char> = Vec::new();
    let mut i: usize = 0;
    while i < len
        invariant
            len == s@.len(),
            i <= len,
            out@ == norm_seq(s@.take(i as int)),
        decreases len - i,
    {
        let c = s.get_char(i);
        proof {
            let t = s@.take(i + 1 as int);
            assert(t.drop_last() =~= s@.take(i as int));
            assert(t.last() == s@[i as int]);
        }
        if !space_char(c) {
            out.push(upper_char(c));
        }
        i = i + 1;
    }
    proof {
        assert(s@.take(len as int) =~= s@);
    }
    chars_to_string(&out)
}

/// Whether `c` occurs in `s`.
pub fn str_contains_char(s: &str, c: char) -> (r: bool)
    ensures
        r == s@.contains(c),
{
    let len = s.unicode_len();
    let mut i: usize = 0;
    while i < len
        invariant
            len == s@.len(),
            i <= len,
            forall|k: int| 0 <= k < i ==> s@[k] != c,
        decreases len - i,
    {
        if s.get_char(i) == c {
            return true;
        }
        i = i + 1;
    }
    false
}

/// Whether `needle` matches the characters of `hay` starting at `at`.
fn match_at(hay: &str, needle: &str, at: usize) -> (r: bool)
    requires
        at + needle@.len() <= hay@.len(),
    ensures
        r == is_substring_at(hay@, needle@, at as int),
{
    let h = hay.unicode_len();
    let n = needle.unicode_len();
    let mut k: usize = 0;
    while k < n
        invariant
            h == hay@.len(),
            n == needle@.len(),
            at + n <= h,
            k <= n,
            forall|j: int| 0 <= j < k ==> hay@[at + j] == needle@[j],
        decreases n - k,
    {
        if hay.get_char(at + k) != needle.get_char(k) {
            proof {
                assert(hay@.subrange(at as int, at + n as int)[k as int] == hay@[at + k]);
            }
            return false;
        }
        k = k + 1;
    }
    proof {
        assert(hay@.subrange(at as int, at + n as int) =~= needle@);
    }
    true
}

/// Whether `needle` occurs in `hay` as a contiguous substring.
pub fn str_contains_str(hay: &str, needle: &str) -> (r: bool)
    ensures
        r == contains_seq(hay@, needle@),
{
    let h = hay.unicode_len();
    let n = needle.unicode_len();
    if n > h {
        return false;
    }
    if n == 0 {
        proof {
            assert(hay@.subrange(0, 0) =~= needle@);
            assert(is_substring_at(hay@, needle@, 0));
        }
        return true;
    }
    let count = h - n + 1;
    let mut i: usize = 0;
    while i < count
        invariant
            h == hay@.len(),
            n == needle@.len(),
            0 < n <= h,
            count == h - n + 1,
            i <= count,
            forall|j: int| 0 <= j < i ==> !is_substring_at(hay@, needle@, j),
        decreases count - i,
    {
        if match_at(hay, needle, i) {
            return true;
        }
        i = i + 1;
    }
    false
}

/// Normalization does not touch a sequence of clean characters.
pub proof fn lemma_norm_clean(s: Seq<char>)
    requires
        forall|i: int| 0 <= i < s.len() ==> clean_char(#[trigger] s[i]),
    ensures
        norm_seq(s) == s,
    decreases s.len(),
{
    if s.len() == 0 {
        assert(norm_seq(s) =~= s);
    } else {
        lemma_norm_clean(s.drop_last());
        assert(clean_char(s.last()));
        assert(norm_seq(s) =~= s);
    }
}

/// Every character that normalization produces is clean.
pub proof fn lemma_norm_chars_clean(s: Seq<char>)
    ensures
        forall|i: int| 0 <= i < norm_seq(s).len() ==> clean_char(#[trigger] norm_seq(s)[i]),
    decreases s.len(),
{
    if s.len() > 0 {
        lemma_norm_chars_clean(s.drop_last());
        let rest = norm_seq(s.drop_last());
        if is_space(s.last()) {
            assert(norm_seq(s) == rest);
        } else {
            assert(norm_seq(s) == rest.push(to_upper(s.last())));
            assert(clean_char(to_upper(s.last())));
            assert forall|i: int| 0 <= i < norm_seq(s).len() implies clean_char(
                #[trigger] norm_seq(s)[i],
            ) by {
                if i < rest.len() {
                    assert(norm_seq(s)[i] == rest[i]);
                } else {
                    assert(norm_seq(s)[i] == to_upper(s.last()));
                }
            }
        }
    }
}

/// Normalization is idempotent.
pub proof fn lemma_norm_idempotent(s: Seq<char>)
    ensures
        norm_seq(norm_seq(s)) == norm_seq(s),
{
    lemma_norm_chars_clean(s);
    lemma_norm_clean(norm_seq(s));
}

/// Every character that the alphabet filter keeps occurs in the alphabet.
pub proof fn lemma_keep_alpha_sub(s: Seq<char>, alpha: Seq<char>)
    ensures
        forall|i: int|
            0 <= i < keep_alpha(s, alpha).len() ==> alpha.contains(
                #[trigger] keep_alpha(s, alpha)[i],
            ),
    decreases s.len(),
{
    if s.len() > 0 {
        lemma_keep_alpha_sub(s.drop_last(), alpha);
        let rest = keep_alpha(s.drop_last(), alpha);
        if alpha.contains(s.last()) {
            assert(keep_alpha(s, alpha) == rest.push(s.last()));
            assert forall|i: int| 0 <= i < keep_alpha(s, alpha).len() implies alpha.contains(
                #[trigger] keep_alpha(s, alpha)[i],
            ) by {
                if i < rest.len() {
                    assert(keep_alpha(s, alpha)[i] == rest[i]);
                } else {
                    assert(keep_alpha(s, alpha)[i] == s.last());
                }
            }
        } else {
            assert(keep_alpha(s, alpha) == rest);
        }
    }
}

/// The alphabet filter keeps a sequence made entirely of alphabet
/// characters unchanged.
pub proof fn lemma_keep_alpha_all(s: Seq<char>, alpha: Seq<char>)
    requires
        forall|i: int| 0 <= i < s.len() ==> alpha.contains(#[trigger] s[i]),
    ensures
        keep_alpha(s, alpha) == s,
    decreases s.len(),
{
    if s.len() == 0 {
        assert(keep_alpha(s, alpha) =~= s);
    } else {
        lemma_keep_alpha_all(s.drop_last(), alpha);
        assert(alpha.contains(s.last()));
        assert(keep_alpha(s, alpha) =~= s);
    }
}

/// The alphabet filter keeps only clean characters when given only clean
/// characters.
pub proof fn lemma_keep_alpha_clean(s: Seq<char>, alpha: Seq<char>)
    requires
        forall|i: int| 0 <= i < s.len() ==> clean_char(#[trigger] s[i]),
    ensures
        forall|i: int|
            0 <= i < keep_alpha(s, alpha).len() ==> clean_char(#[trigger] keep_alpha(s, alpha)[i]),
    decreases s.len(),
{
    if s.len() > 0 {
        lemma_keep_alpha_clean(s.drop_last(), alpha);
        let rest = keep_alpha(s.drop_last(), alpha);
        if alpha.contains(s.last()) {
            assert(keep_alpha(s, alpha) == rest.push(s.last()));
            assert forall|i: int| 0 <= i < keep_alpha(s, alpha).len() implies clean_char(
                #[trigger] keep_alpha(s, alpha)[i],
            ) by {
                if i < rest.len() {
                    assert(keep_alpha(s, alpha)[i] == rest[i]);
                } else {
                    assert(keep_alpha(s, alpha)[i] == s.last());
                    assert(clean_char(s.last()));
                }
            }
        } else {
            assert(keep_alpha(s, alpha) == rest);
        }
    }
}

/// Sanitization is idempotent on its own output: sanitizing a sanitized
/// string changes nothing, for every input string and every alphabet.
pub proof fn lemma_sanitize_idempotent(s: Seq<char>, alpha: Seq<char>)
    ensures
        sanitize_spec(sanitize_spec(s, alpha), alpha) == sanitize_spec(s, alpha),
{
    let n = norm_seq(s);
    let x = keep_alpha(n, alpha);
    lemma_norm_chars_clean(s);
    lemma_keep_alpha_clean(n, alpha);
    lemma_norm_clean(x);
    lemma_keep_alpha_sub(n, alpha);
    lemma_keep_alpha_all(x, alpha);
}

/// An alphabet character is clean: upper-case letters and digits are
/// neither whitespace nor changed by upper-casing.
pub proof fn lemma_upper_or_digit_clean(c: char)
    requires
        is_upper_or_digit(c),
    ensures
        clean_char(c),
{
}

} // verus!
