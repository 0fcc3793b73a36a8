//! The identifier generator: a validated configuration plus a xorshift
//! bit source, with rejection sampling and the standalone acceptance,
//! normalization and sanitization operations.

use vstd::prelude::*;

use crate::config::all_upper_or_digit;
use crate::config::config_valid;
use crate::config::validate_err_msg;
use crate::config::IdConfig;
use crate::numfmt::dec_digits;
use crate::numfmt::usize_decimal;
use crate::rng::XorShift64;
use crate::text::chars_to_string;
use crate::text::clean_char;
use crate::text::contains_seq;
use crate::text::has_banned;
use crate::text::is_substring_at;
use crate::text::keep_alpha;
use crate::text::lemma_norm_clean;
use crate::text::lemma_norm_idempotent;
use crate::text::lemma_upper_or_digit_clean;
use crate::text::norm_seq;
use crate::text::normalize_str;
use crate::text::sanitize_spec;
use crate::text::str_chars;
use crate::text::str_contains_char;
use crate::text::str_contains_str;

verus! {

/// How many candidates one `generate` call may sample before giving up.
/// Pure rejection sampling would retry without bound; a ceiling with a
/// dedicated error keeps every call terminating even under an
/// adversarial configuration that bans every candidate of a length.
const RETRY_LIMIT: usize = 100000;

/// The acceptance predicate over the mathematical model: the normalized
/// form of `s` is non-empty, fits the maximum length, uses only
/// alphabet characters and contains no banned substring.
pub open spec fn allowed_spec(s: Seq<char>, cfg: IdConfig) -> bool {
    let n = norm_seq(s);
    &&& n.len() > 0
    &&& n.len() <= cfg.max_length
    &&& forall|i: int| 0 <= i < n.len() ==> cfg.alphabet@.contains(#[trigger] n[i])
    &&& !has_banned(n, cfg.banned_substrings.deep_view())
}

/// Every banned substring is strictly longer than `len`: no string of
/// `len` characters can contain one.
pub open spec fn all_banned_longer(banned: Seq<Seq<char>>, len: int) -> bool {
    forall|j: int| 0 <= j < banned.len() ==> (#[trigger] banned[j]).len() > len
}

/// A sequence shorter than every banned substring contains none of them.
pub proof fn lemma_short_has_no_banned(s: Seq<char>, banned: Seq<Seq<char>>)
    requires
        all_banned_longer(banned, s.len() as int),
    ensures
        !has_banned(s, banned),
{
    if has_banned(s, banned) {
        let j = choose|j: int| 0 <= j < banned.len() && contains_seq(s, banned[j]);
        let i = choose|i: int| is_substring_at(s, banned[j], i);
        assert(i + banned[j].len() <= s.len());
        assert(false);
    }
}

/// A string drawn entirely from an uppercase-letter-or-digit alphabet
/// is untouched by normalization.
pub proof fn lemma_alphabet_string_clean(s: Seq<char>, alpha: Seq<char>)
    requires
        forall|i: int| 0 <= i < s.len() ==> alpha.contains(#[trigger] s[i]),
        all_upper_or_digit(alpha),
    ensures
        norm_seq(s) == s,
{
    assert forall|i: int| 0 <= i < s.len() implies clean_char(#[trigger] s[i]) by {
        let k = choose|k: int| 0 <= k < alpha.len() && alpha[k] == s[i];
        lemma_upper_or_digit_clean(s[i]);
    }
    lemma_norm_clean(s);
}

/// A string accepted by the acceptance predicate normalizes to a string
/// that is accepted again, and normalizing a second time changes
/// nothing: acceptance is stable under re-normalization.
pub proof fn lemma_allowed_normalize_roundtrip(s: Seq<char>, cfg: IdConfig)
    requires
        allowed_spec(s, cfg),
    ensures
        allowed_spec(norm_seq(s), cfg),
        norm_seq(norm_seq(s)) == norm_seq(s),
{
    lemma_norm_idempotent(s);
}

/// A generator: one validated configuration and one pseudo-random bit
/// source.  Construction fails if the configuration is invalid; the
/// configuration is never mutated afterwards.
pub struct IdSystem {
    config: IdConfig,
    rng: XorShift64,
}

impl IdSystem {
    /// The configuration this generator was built from.
    pub closed spec fn spec_config(&self) -> IdConfig {
        self.config
    }

    /// Every generator holds a configuration that passed validation.
    pub open spec fn wf(&self) -> bool {
        config_valid(self.spec_config())
    }

    /// Validates `config` and, on success, pairs it with a bit source
    /// seeded from the wall clock.
    pub fn new(config: IdConfig) -> (r: Result<IdSystem, String>)
        ensures
            r is Ok <==> config_valid(config),
            r is Ok ==> r->Ok_0.wf() && r->Ok_0.spec_config() == config,
            r is Err ==> r->Err_0@ == validate_err_msg(config),
    {
        match config.validate() {
            Ok(_) => Ok(IdSystem { config, rng: XorShift64::from_system_time() }),
            Err(e) => Err(e),
        }
    }

    /// Read-only access to the active configuration.
    pub fn config(&self) -> (r: &IdConfig)
        ensures
            *r == self.spec_config(),
    {
        &self.config
    }

    /// Normalizes a candidate: strips all whitespace and upper-cases
    /// the remaining characters.
    pub fn normalize(&self, candidate: &str) -> (r: String)
        ensures
            r@ == norm_seq(candidate@),
    {
        normalize_str(candidate)
    }

    /// Best-effort cleanup: normalizes, then drops every character not
    /// in the alphabet.  Checks neither length nor banned substrings.
    pub fn sanitize(&self, candidate: &str) -> (r: String)
        ensures
            r@ == sanitize_spec(candidate@, self.spec_config().alphabet@),
    {
        let normalized = self.normalize(candidate);
        let nchars = str_chars(normalized.as_str());
        let n = nchars.len();
        let mut out: Vec<char> = Vec::new();
        let mut i: usize = 0;
        while i < n
            invariant
                n == nchars@.len(),
                nchars@ == norm_seq(candidate@),
                i <= n,
                out@ == keep_alpha(nchars@.take(i as int), self.spec_config().alphabet@),
            decreases n - i,
        {
            let c = nchars[i];
            proof {
                let t = nchars@.take(i + 1 as int);
                assert(t.drop_last() =~= nchars@.take(i as int));
                assert(t.last() == nchars@[i as int]);
            }
            if str_contains_char(self.config.alphabet.as_str(), c) {
                out.push(c);
            }
            i = i + 1;
        }
        proof {
            assert(nchars@.take(n as int) =~= nchars@);
        }
        chars_to_string(&out)
    }

    /// Whether any banned substring occurs in `candidate` as given
    /// (no normalization is applied here).
    pub fn contains_banned_substring(&self, candidate: &str) -> (r: bool)
        ensures
            r == has_banned(candidate@, self.spec_config().banned_substrings.deep_view()),
    {
        let m = self.config.banned_substrings.len();
        let mut j: usize = 0;
        while j < m
            invariant
                m == self.config.banned_substrings@.len(),
                j <= m,
                forall|q: int|
                    0 <= q < j ==> !contains_seq(
                        candidate@,
                        self.spec_config().banned_substrings.deep_view()[q],
                    ),
            decreases m - j,
        {
            if str_contains_str(candidate, self.config.banned_substrings[j].as_str()) {
                proof {
                    assert(self.spec_config().banned_substrings.deep_view()[j as int]
                        == self.config.banned_substrings@[j as int]@);
                }
                return true;
            }
            j = j + 1;
        }
        false
    }

    /// The acceptance predicate: normalizes `candidate` and accepts it
    /// exactly when the normalized form is non-empty, within the
    /// maximum length, drawn from the alphabet alone and free of banned
    /// substrings.
    pub fn is_allowed(&self, candidate: &str) -> (r: bool)
        ensures
            r == allowed_spec(candidate@, self.spec_config()),
    {
        let normalized = self.normalize(candidate);
        let nlen = normalized.as_str().unicode_len();
        if nlen == 0 {
            return false;
        }
        if nlen > self.config.max_length {
            return false;
        }
        let nchars = str_chars(normalized.as_str());
        let n = nchars.len();
        let mut i: usize = 0;
        while i < n
            invariant
                n == nchars@.len(),
                nchars@ == norm_seq(candidate@),
                i <= n,
                forall|k: int|
                    0 <= k < i ==> self.spec_config().alphabet@.contains(#[trigger] nchars@[k]),
            decreases n - i,
        {
            if !str_contains_char(self.config.alphabet.as_str(), nchars[i]) {
                return false;
            }
            i = i + 1;
        }
        !self.contains_banned_substring(normalized.as_str())
    }

    /// Draws `length` characters independently from `alphabet`.
    fn sample_candidate(alphabet: &Vec<char>, rng: &mut XorShift64, length: usize) -> (r: String)
        requires
            alphabet@.len() > 0,
        ensures
            r@.len() == length,
            forall|i: int| 0 <= i < length ==> alphabet@.contains(#[trigger] r@[i]),
    {
        let mut out: Vec<char> = Vec::new();
        let mut k: usize = 0;
        while k < length
            invariant
                alphabet@.len() > 0,
                k <= length,
                out@.len() == k,
                forall|i: int| 0 <= i < k ==> alphabet@.contains(#[trigger] out@[i]),
            decreases length - k,
        {
            let idx = rng.next_usize(alphabet.len());
            out.push(alphabet[idx]);
            k = k + 1;
        }
        chars_to_string(&out)
    }

    /// Generates one identifier of exactly `length` characters by
    /// rejection sampling: candidates are drawn uniformly by index from
    /// the alphabet and the first one the acceptance predicate passes
    /// is returned.  Lengths outside `1..=max_length` fail immediately;
    /// a length shorter than every banned substring succeeds on the
    /// first draw.
    pub fn generate(&self, length: usize) -> (r: Result<String, String>)
        requires
            self.wf(),
            self.spec_config().alphabet@.len() == 0 ==> !(1 <= length
                <= self.spec_config().max_length),
        ensures
            r is Ok ==> 1 <= length <= self.spec_config().max_length,
            !(1 <= length <= self.spec_config().max_length) ==> r is Err && r->Err_0@
                == "length must be 1.."@ + dec_digits(self.spec_config().max_length as int),
            r is Ok ==> r->Ok_0@.len() == length,
            r is Ok ==> forall|i: int|
                0 <= i < length ==> self.spec_config().alphabet@.contains(#[trigger] r->Ok_0@[i]),
            r is Ok ==> !has_banned(r->Ok_0@, self.spec_config().banned_substrings.deep_view()),
            r is Ok ==> allowed_spec(r->Ok_0@, self.spec_config()),
            1 <= length <= self.spec_config().max_length && all_banned_longer(
                self.spec_config().banned_substrings.deep_view(),
                length as int,
            ) ==> r is Ok,
            r is Err && 1 <= length <= self.spec_config().max_length ==> r->Err_0@
                == "exhausted retries"@,
    {
        if length == 0 || length > self.config.max_length {
            let mut msg = String::from_str("length must be 1..");
            let digits = chars_to_string(&usize_decimal(self.config.max_length));
            msg.append(digits.as_str());
            return Err(msg);
        }
        let alphabet = str_chars(self.config.alphabet.as_str());
        let mut rng = self.rng;

        let first = Self::sample_candidate(&alphabet, &mut rng, length);
        proof {
            lemma_alphabet_string_clean(first@, self.spec_config().alphabet@);
        }
        if self.is_allowed(first.as_str()) {
            return Ok(first);
        }
        proof {
            if all_banned_longer(self.spec_config().banned_substrings.deep_view(), length as int) {
                lemma_short_has_no_banned(
                    first@,
                    self.spec_config().banned_substrings.deep_view(),
                );
                assert(allowed_spec(first@, self.spec_config()));
                assert(false);
            }
        }

        let mut attempts: usize = 1;
        while attempts < RETRY_LIMIT
            invariant
                self.wf(),
                1 <= length <= self.spec_config().max_length,
                alphabet@ == self.spec_config().alphabet@,
                alphabet@.len() > 0,
                !all_banned_longer(
                    self.spec_config().banned_substrings.deep_view(),
                    length as int,
                ),
            decreases RETRY_LIMIT - attempts,
        {
            let candidate = Self::sample_candidate(&alphabet, &mut rng, length);
            proof {
                lemma_alphabet_string_clean(candidate@, self.spec_config().alphabet@);
            }
            if self.is_allowed(candidate.as_str()) {
                return Ok(candidate);
            }
            attempts = attempts + 1;
        }
        Err(String::from_str("exhausted retries"))
    }
}

} // verus!
