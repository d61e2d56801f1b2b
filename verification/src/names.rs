//! Display-name rules: a requested name is trimmed of surrounding
//! whitespace, must then be 1 to 20 characters long, and may contain only
//! alphanumeric characters and underscores.

use vstd::prelude::*;
use vstd::string::StrSliceExecFns;

verus! {

/// Longest display name accepted, in characters, after trimming.
pub const MAX_NAME_CHARS: usize = 20;

/// Whether `c` has the Unicode White_Space property.
pub uninterp spec fn char_is_whitespace(c: char) -> bool;

/// Whether `c` is alphabetic or numeric in the Unicode sense.
pub uninterp spec fn char_is_alphanumeric(c: char) -> bool;

/// Relies on char::is_whitespace: the result depends on the character alone.
#[verifier::external_body]
fn is_whitespace_char(c: char) -> (r: bool)
    ensures
        r == char_is_whitespace(c),
{
    c.is_whitespace()
}

/// Relies on char::is_alphanumeric: the result depends on the character alone.
#[verifier::external_body]
fn is_alphanumeric_char(c: char) -> (r: bool)
    ensures
        r == char_is_alphanumeric(c),
{
    c.is_alphanumeric()
}

/// Number of leading whitespace characters.
pub open spec fn ws_prefix_len(s: Seq<char>) -> nat
    decreases s.len(),
{
    if s.len() > 0 && char_is_whitespace(s[0]) {
        (1 + ws_prefix_len(s.drop_first())) as nat
    } else {
        0
    }
}

/// Number of trailing whitespace characters.
pub open spec fn ws_suffix_len(s: Seq<char>) -> nat
    decreases s.len(),
{
    if s.len() > 0 && char_is_whitespace(s.last()) {
        (1 + ws_suffix_len(s.drop_last())) as nat
    } else {
        0
    }
}

/// `s` with surrounding whitespace removed.
pub open spec fn spec_trim(s: Seq<char>) -> Seq<char> {
    if ws_prefix_len(s) == s.len() {
        Seq::empty()
    } else {
        s.subrange(ws_prefix_len(s) as int, s.len() - ws_suffix_len(s))
    }
}

pub proof fn lemma_ws_prefix(s: Seq<char>)
    ensures
        ws_prefix_len(s) <= s.len(),
        forall|k: int| 0 <= k < ws_prefix_len(s) ==> char_is_whitespace(s[k]),
        ws_prefix_len(s) < s.len() ==> !char_is_whitespace(s[ws_prefix_len(s) as int]),
    decreases s.len(),
{
    if s.len() > 0 && char_is_whitespace(s[0]) {
        let t = s.drop_first();
        lemma_ws_prefix(t);
        assert forall|k: int| 0 <= k < ws_prefix_len(s) implies char_is_whitespace(s[k]) by {
            if k > 0 {
                assert(s[k] == t[k - 1]);
            }
        }
        if ws_prefix_len(s) < s.len() {
            assert(s[ws_prefix_len(s) as int] == t[ws_prefix_len(t) as int]);
        }
    }
}

pub proof fn lemma_ws_suffix(s: Seq<char>)
    ensures
        ws_suffix_len(s) <= s.len(),
        forall|k: int| s.len() - ws_suffix_len(s) <= k < s.len() ==> char_is_whitespace(s[k]),
        ws_suffix_len(s) < s.len() ==> !char_is_whitespace(
            s[s.len() - ws_suffix_len(s) - 1],
        ),
    decreases s.len(),
{
    if s.len() > 0 && char_is_whitespace(s.last()) {
        let t = s.drop_last();
        lemma_ws_suffix(t);
        assert forall|k: int|
            s.len() - ws_suffix_len(s) <= k < s.len() implies char_is_whitespace(s[k]) by {
            if k < s.len() - 1 {
                assert(s[k] == t[k]);
            }
        }
        if ws_suffix_len(s) < s.len() {
            assert(s[s.len() - ws_suffix_len(s) - 1] == t[t.len() - ws_suffix_len(t) - 1]);
        }
    }
}

/// The whitespace prefix ends exactly at the first non-whitespace position.
pub proof fn lemma_ws_prefix_at(s: Seq<char>, i: int)
    requires
        0 <= i <= s.len(),
        forall|k: int| 0 <= k < i ==> char_is_whitespace(s[k]),
        i < s.len() ==> !char_is_whitespace(s[i]),
    ensures
        ws_prefix_len(s) == i,
{
    lemma_ws_prefix(s);
    if ws_prefix_len(s) < i {
        assert(char_is_whitespace(s[ws_prefix_len(s) as int]));
        assert(false);
    }
    if ws_prefix_len(s) > i {
        assert(char_is_whitespace(s[i]));
        assert(false);
    }
}

/// The whitespace suffix starts exactly at the last non-whitespace position.
pub proof fn lemma_ws_suffix_at(s: Seq<char>, j: int)
    requires
        0 <= j <= s.len(),
        forall|k: int| j <= k < s.len() ==> char_is_whitespace(s[k]),
        j > 0 ==> !char_is_whitespace(s[j - 1]),
    ensures
        ws_suffix_len(s) == s.len() - j,
{
    lemma_ws_suffix(s);
    if ws_suffix_len(s) < s.len() - j {
        assert(char_is_whitespace(s[s.len() - ws_suffix_len(s) - 1]));
        assert(false);
    }
    if ws_suffix_len(s) > s.len() - j {
        assert(char_is_whitespace(s[j - 1]));
        assert(false);
    }
}

/// Removes surrounding whitespace.
pub fn trim_str<'a>(s: &'a str) -> (r: &'a str)
    ensures
        r@ == spec_trim(s@),
{
    let len = s.unicode_len();
    let mut i: usize = 0;
    while i < len && is_whitespace_char(s.get_char(i))
        invariant
            0 <= i <= len,
            len == s@.len(),
            forall|k: int| 0 <= k < i ==> char_is_whitespace(s@[k]),
        decreases len - i,
    {
        i += 1;
    }
    if i == len {
        proof {
            lemma_ws_prefix_at(s@, i as int);
            reveal_strlit("");
            assert(""@ =~= spec_trim(s@));
        }
        return "";
    }
    let mut j: usize = len;
    while j > i && is_whitespace_char(s.get_char(j - 1))
        invariant
            i <= j <= len,
            i < len,
            len == s@.len(),
            !char_is_whitespace(s@[i as int]),
            forall|k: int| j <= k < len ==> char_is_whitespace(s@[k]),
        decreases j,
    {
        j -= 1;
    }
    proof {
        assert(j > i);
        lemma_ws_prefix_at(s@, i as int);
        lemma_ws_suffix_at(s@, j as int);
    }
    s.substring_char(i, j)
}

/// Every character is alphanumeric or an underscore.
pub open spec fn valid_name_chars(s: Seq<char>) -> bool {
    forall|k: int| 0 <= k < s.len() ==> char_is_alphanumeric(s[k]) || s[k] == '_'
}

/// The trimmed name has an accepted length.
pub open spec fn valid_name_len(s: Seq<char>) -> bool {
    1 <= s.len() <= MAX_NAME_CHARS
}

/// Why a requested display name was refused.
#[derive(Clone, Copy, PartialEq, Eq, Structural, Debug)]
pub enum NameError {
    /// Empty after trimming, or longer than [`MAX_NAME_CHARS`] characters.
    InvalidLength,
    /// Holds a character that is neither alphanumeric nor an underscore.
    InvalidCharacters,
}

/// Validates a requested display name: trims surrounding whitespace, then
/// checks length and character rules.  Returns the trimmed name on success.
pub fn validate_name(raw: &str) -> (r: Result<String, NameError>)
    ensures
        match r {
            Ok(name) => {
                &&& name@ == spec_trim(raw@)
                &&& valid_name_len(spec_trim(raw@))
                &&& valid_name_chars(spec_trim(raw@))
            },
            Err(e) => {
                &&& (e == NameError::InvalidLength <==> !valid_name_len(spec_trim(raw@)))
                &&& (e == NameError::InvalidCharacters <==> valid_name_len(spec_trim(raw@))
                    && !valid_name_chars(spec_trim(raw@)))
            },
        },
{
    let t = trim_str(raw);
    let n = t.unicode_len();
    if n == 0 || n > MAX_NAME_CHARS {
        return Err(NameError::InvalidLength);
    }
    for k in 0..n
        invariant
            t@ == spec_trim(raw@),
            n == t@.len(),
            valid_name_len(t@),
            forall|m: int| 0 <= m < k ==> char_is_alphanumeric(t@[m]) || t@[m] == '_',
    {
        let c = t.get_char(k);
        if !(is_alphanumeric_char(c) || c == '_') {
            proof {
                assert(!(char_is_alphanumeric(t@[k as int]) || t@[k as int] == '_'));
            }
            return Err(NameError::InvalidCharacters);
        }
    }
    Ok(t.to_owned())
}

} // verus!
