//! The generation rules: maximum length, allowed alphabet and banned
//! substrings, together with their validation.

use vstd::prelude::*;

use crate::chars::is_upper_or_digit;
use crate::chars::to_upper;
use crate::chars::upper_char;
use crate::chars::upper_or_digit_char;
use crate::text::chars_to_string;
use crate::text::str_chars;

verus! {

/// Maximum identifier length of the default configuration.
pub const DEFAULT_MAX_LENGTH: usize = 16;

/// The alphabet of the default configuration: uppercase letters and
/// digits with the visually ambiguous `0`, `1`, `O`, `I`, `A`, `E`, `L`
/// and `U` left out.
pub open spec fn default_alphabet() -> Seq<char> {
    "23456789BCDFGHJKMNPQRSTVWXYZ"@
}

/// The banned substrings of the default configuration.
pub open spec fn default_banned() -> Seq<Seq<char>> {
    seq![
        "ANAL"@,
        "ARSE"@,
        "ASS"@,
        "BASTARD"@,
        "BLOW"@,
        "BULL"@,
        "CRAP"@,
        "CUNT"@,
        "DAMN"@,
        "DICK"@,
        "FUCK"@,
        "HELL"@,
        "JERK"@,
        "NIG"@,
        "PISS"@,
        "PORN"@,
        "PRICK"@,
        "PUSSY"@,
        "SHIT"@,
        "SLUT"@,
        "TWAT"@,
        "WANK"@,
    ]
}

/// Two positions of `s` hold the same character.
pub open spec fn has_dup(s: Seq<char>) -> bool {
    exists|i: int, j: int| 0 <= i < j < s.len() && s[i] == s[j]
}

/// Every character of `s` is an ASCII uppercase letter or digit.
pub open spec fn all_upper_or_digit(s: Seq<char>) -> bool {
    forall|i: int| 0 <= i < s.len() ==> is_upper_or_digit(#[trigger] s[i])
}

/// The rules a usable configuration must obey: a positive maximum
/// length and a duplicate-free alphabet of uppercase letters and digits.
pub open spec fn config_valid(cfg: IdConfig) -> bool {
    &&& cfg.max_length > 0
    &&& !has_dup(cfg.alphabet@)
    &&& all_upper_or_digit(cfg.alphabet@)
}

/// The message `validate` reports for an invalid configuration: the
/// first of the three rules, in checking order, that fails.
pub open spec fn validate_err_msg(cfg: IdConfig) -> Seq<char> {
    if cfg.max_length == 0 {
        "max_length must be positive"@
    } else if has_dup(cfg.alphabet@) {
        "alphabet must not contain duplicates"@
    } else {
        "alphabet must be alphanumeric uppercase characters only"@
    }
}

/// An immutable set of generation rules.  Building one performs no
/// validation: call [`IdConfig::validate`] (or construct an
/// [`crate::system::IdSystem`], which validates internally) before use.
#[derive(Clone, Debug)]
pub struct IdConfig {
    /// Upper bound on any generated or accepted identifier length.
    pub max_length: usize,
    /// The only characters that may appear in a valid identifier.
    pub alphabet: String,
    /// Identifiers containing any of these as a contiguous substring
    /// are rejected.
    pub banned_substrings: Vec<String>,
}

impl Default for IdConfig {
    /// The default rules: maximum length 16, the ambiguity-avoiding
    /// alphabet and a baseline list of banned offensive tokens.
    fn default() -> (r: Self)
        ensures
            r.max_length == DEFAULT_MAX_LENGTH,
            r.alphabet@ == default_alphabet(),
            r.banned_substrings.deep_view() == default_banned(),
            config_valid(r),
    {
        let mut banned: Vec<String> = Vec::new();
        banned.push(String::from_str("ANAL"));
        banned.push(String::from_str("ARSE"));
        banned.push(String::from_str("ASS"));
        banned.push(String::from_str("BASTARD"));
        banned.push(String::from_str("BLOW"));
        banned.push(String::from_str("BULL"));
        banned.push(String::from_str("CRAP"));
        banned.push(String::from_str("CUNT"));
        banned.push(String::from_str("DAMN"));
        banned.push(String::from_str("DICK"));
        banned.push(String::from_str("FUCK"));
        banned.push(String::from_str("HELL"));
        banned.push(String::from_str("JERK"));
        banned.push(String::from_str("NIG"));
        banned.push(String::from_str("PISS"));
        banned.push(String::from_str("PORN"));
        banned.push(String::from_str("PRICK"));
        banned.push(String::from_str("PUSSY"));
        banned.push(String::from_str("SHIT"));
        banned.push(String::from_str("SLUT"));
        banned.push(String::from_str("TWAT"));
        banned.push(String::from_str("WANK"));
        proof {
            assert(banned.deep_view() =~= default_banned());
        }
        let r = IdConfig {
            max_length: DEFAULT_MAX_LENGTH,
            alphabet: String::from_str("23456789BCDFGHJKMNPQRSTVWXYZ"),
            banned_substrings: banned,
        };
        proof {
            reveal_strlit("23456789BCDFGHJKMNPQRSTVWXYZ");
            assert(all_upper_or_digit(r.alphabet@));
            assert(!has_dup(r.alphabet@)) by {
                assert forall|i: int, j: int|
                    0 <= i < j < r.alphabet@.len() implies r.alphabet@[i] != r.alphabet@[j] by {
                    assert(r.alphabet@[i] as u32 != r.alphabet@[j] as u32);
                }
            }
        }
        r
    }
}

impl IdConfig {
    /// Checks the configuration rules in order and reports the first
    /// one that fails; never mutates the configuration.
    pub fn validate(&self) -> (r: Result<(), String>)
        ensures
            r is Ok <==> config_valid(*self),
            r is Err ==> r->Err_0@ == validate_err_msg(*self),
    {
        if self.max_length == 0 {
            return Err(String::from_str("max_length must be positive"));
        }
        let chars = str_chars(self.alphabet.as_str());
        let n = chars.len();
        let mut i: usize = 0;
        while i < n
            invariant
                self.max_length > 0,
                n == chars@.len(),
                chars@ == self.alphabet@,
                i <= n,
                forall|p: int, q: int| 0 <= p < q < n && p < i ==> chars@[p] != chars@[q],
            decreases n - i,
        {
            let mut j: usize = i + 1;
            while j < n
                invariant
                    self.max_length > 0,
                    n == chars@.len(),
                    chars@ == self.alphabet@,
                    i < j <= n,
                    i < n,
                    forall|q: int| i < q < j ==> chars@[i as int] != chars@[q],
                decreases n - j,
            {
                if chars[i] == chars[j] {
                    proof {
                        assert(0 <= i < j < self.alphabet@.len() && self.alphabet@[i as int]
                            == self.alphabet@[j as int]);
                        assert(has_dup(self.alphabet@));
                    }
                    return Err(String::from_str("alphabet must not contain duplicates"));
                }
                j = j + 1;
            }
            i = i + 1;
        }
        let mut k: usize = 0;
        while k < n
            invariant
                self.max_length > 0,
                n == chars@.len(),
                chars@ == self.alphabet@,
                k <= n,
                forall|p: int| 0 <= p < k ==> is_upper_or_digit(#[trigger] chars@[p]),
                !has_dup(self.alphabet@),
            decreases n - k,
        {
            if !upper_or_digit_char(chars[k]) {
                return Err(
                    String::from_str("alphabet must be alphanumeric uppercase characters only"),
                );
            }
            k = k + 1;
        }
        Ok(())
    }
}

/// ASCII upper-casing of a whole sequence, character by character.
pub open spec fn upper_seq(s: Seq<char>) -> Seq<char> {
    Seq::new(s.len(), |i: int| to_upper(s[i]))
}

/// Upper-cases a string, character by character.
fn upper_str(s: &str) -> (r: String)
    ensures
        r@ == upper_seq(s@),
{
    let len = s.unicode_len();
    let mut out: Vec<char> = Vec::new();
    let mut i: usize = 0;
    while i < len
        invariant
            len == s@.len(),
            i <= len,
            out@.len() == i,
            forall|k: int| 0 <= k < i ==> out@[k] == to_upper(s@[k]),
        decreases len - i,
    {
        out.push(upper_char(s.get_char(i)));
        i = i + 1;
    }
    proof {
        assert(out@ =~= upper_seq(s@));
    }
    chars_to_string(&out)
}

/// Builds a configuration from raw inputs, upper-casing the alphabet
/// and each banned substring before storage.  Performs no validation.
pub fn build_custom_config(max_length: usize, alphabet: &str, banned_substrings: &[&str]) -> (r:
    IdConfig)
    ensures
        r.max_length == max_length,
        r.alphabet@ == upper_seq(alphabet@),
        r.banned_substrings@.len() == banned_substrings@.len(),
        forall|i: int|
            0 <= i < banned_substrings@.len() ==> r.banned_substrings@[i]@ == upper_seq(
                #[trigger] banned_substrings@[i]@,
            ),
{
    let mut banned: Vec<String> = Vec::new();
    let count = banned_substrings.len();
    let mut i: usize = 0;
    while i < count
        invariant
            count == banned_substrings@.len(),
            i <= count,
            banned@.len() == i,
            forall|k: int|
                0 <= k < i ==> banned@[k]@ == upper_seq(#[trigger] banned_substrings@[k]@),
        decreases count - i,
    {
        banned.push(upper_str(banned_substrings[i]));
        i = i + 1;
    }
    IdConfig { max_length, alphabet: upper_str(alphabet), banned_substrings: banned }
}

} // verus!
