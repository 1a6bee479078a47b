//! The calls into other crates and into parts of the standard library that
//! carry no specification of their own. What each contract claims is believed,
//! not proved; each item says what it claims and of which function.

use hmac::Mac;
use sha2::Digest;
use subtle::ConstantTimeEq;
use vstd::prelude::*;
use vstd::utf8::*;

use crate::decimal;
use crate::text;

verus! {

/// `String::push` appends one character to the end of the string.
pub assume_specification[ String::push ](s: &mut String, c: char)
    ensures
        final(s)@ == old(s)@.push(c),
;

// ---------------------------------------------------------------------------
// Digests and their text form
// ---------------------------------------------------------------------------

/// The HMAC-SHA256 code of a message under a key.
pub uninterp spec fn hmac_sha256_of(key: Seq<u8>, message: Seq<u8>) -> Seq<u8>;

/// `hmac::Hmac::<sha2::Sha256>`: `new_from_slice` accepts a key of any length,
/// and `finalize` gives a code of 32 bytes that depends on the key and the
/// message alone.
#[verifier::external_body]
pub(crate) fn hmac_sha256(key: &[u8], message: &[u8]) -> (r: Vec<u8>)
    ensures
        r@ == hmac_sha256_of(key@, message@),
        r@.len() == 32,
{
    let mut mac = hmac::Hmac::<sha2::Sha256>::new_from_slice(key)
        .expect("HMAC takes a key of any length");
    mac.update(message);
    mac.finalize().into_bytes().to_vec()
}

/// The SHA-256 digest of some bytes.
pub uninterp spec fn sha256_of(data: Seq<u8>) -> Seq<u8>;

/// `sha2::Sha256::digest` gives 32 bytes that depend on its argument alone.
#[verifier::external_body]
pub(crate) fn sha256(data: &[u8]) -> (r: Vec<u8>)
    ensures
        r@ == sha256_of(data@),
        r@.len() == 32,
{
    sha2::Sha256::digest(data).to_vec()
}

/// The lower-case hexadecimal digit that stands for `n`.
pub open spec fn hex_digit(n: u8) -> char {
    if n < 10 {
        (48 + n) as char
    } else {
        (87 + n) as char
    }
}

/// Bytes as text, two lower-case hexadecimal digits each.
pub open spec fn hex_text(data: Seq<u8>) -> Seq<char> {
    Seq::new(
        2 * data.len(),
        |i: int|
            if i % 2 == 0 {
                hex_digit(data[i / 2] / 16)
            } else {
                hex_digit(data[i / 2] % 16)
            },
    )
}

/// `hex::encode` writes each byte as two lower-case digits, the high half
/// first.
#[verifier::external_body]
pub(crate) fn hex_encode(data: &[u8]) -> (r: String)
    ensures
        r@ == hex_text(data@),
{
    hex::encode(data)
}

/// `c` is a hexadecimal digit of either case.
pub open spec fn is_hex_digit(c: char) -> bool {
    '0' <= c <= '9' || 'a' <= c <= 'f' || 'A' <= c <= 'F'
}

/// The number that a hexadecimal digit stands for.
pub open spec fn hex_digit_value(c: char) -> u8 {
    if '0' <= c <= '9' {
        (c as u32 - 48) as u8
    } else if 'a' <= c <= 'f' {
        (c as u32 - 87) as u8
    } else {
        (c as u32 - 55) as u8
    }
}

/// `s` is made of hexadecimal digits, two for each of `n` bytes.
pub open spec fn is_hex_text(s: Seq<char>, n: nat) -> bool {
    &&& s.len() == 2 * n
    &&& forall|i: int| 0 <= i < s.len() ==> is_hex_digit(#[trigger] s[i])
}

/// The bytes that a text of hexadecimal digits stands for.
pub open spec fn hex_bytes(s: Seq<char>) -> Seq<u8> {
    Seq::new(
        s.len() / 2,
        |i: int| (hex_digit_value(s[2 * i]) * 16 + hex_digit_value(s[2 * i + 1])) as u8,
    )
}

/// `hex::decode_to_slice` succeeds where the text holds two digits of either
/// case for each byte of the slice, and nothing else; it then fills the slice
/// with the bytes that the digits stand for.
#[verifier::external_body]
pub(crate) fn hex_decode_to_slice(s: &str, out: &mut Vec<u8>) -> (r: bool)
    ensures
        r == is_hex_text(s@, old(out)@.len()),
        r ==> final(out)@ == hex_bytes(s@),
        final(out)@.len() == old(out)@.len(),
{
    hex::decode_to_slice(s, out.as_mut_slice()).is_ok()
}

/// `subtle::ConstantTimeEq::ct_eq` on byte slices: whether they are equal,
/// slices of different lengths being unequal.
#[verifier::external_body]
pub(crate) fn ct_eq(a: &[u8], b: &[u8]) -> (r: bool)
    ensures
        r == (a@ == b@),
{
    a.ct_eq(b).into()
}

/// `std::time::SystemTime::now`, in whole seconds since the Unix epoch, and
/// the epoch itself where the clock stands before it. Nothing more is claimed
/// of the time than that it is not negative.
#[verifier::external_body]
pub(crate) fn unix_seconds() -> (r: i64)
    ensures
        r >= 0,
{
    let since = std::time::SystemTime::now().duration_since(std::time::UNIX_EPOCH);
    i64::try_from(since.unwrap_or_default().as_secs()).unwrap_or(i64::MAX)
}

// ---------------------------------------------------------------------------
// Letter case
// ---------------------------------------------------------------------------

/// A text in lower case.
pub uninterp spec fn lowercase_of(s: Seq<char>) -> Seq<char>;

/// A text with its ASCII letters in lower case.
pub open spec fn ascii_lowercase(s: Seq<char>) -> Seq<char> {
    s.map_values(|c: char| text::ascii_lower(c))
}

/// `str::to_lowercase` depends on the text alone; on ASCII text it changes the
/// letters `A` to `Z` to `a` to `z` and nothing else.
#[verifier::external_body]
pub(crate) fn lowercase(s: &str) -> (r: String)
    ensures
        r@ == lowercase_of(s@),
        is_ascii_chars(s@) ==> r@ == ascii_lowercase(s@),
{
    s.to_lowercase()
}

// ---------------------------------------------------------------------------
// Regular expressions
// ---------------------------------------------------------------------------

/// `c` is a lower-case ASCII letter or an ASCII digit.
pub open spec fn is_slug_char(c: char) -> bool {
    'a' <= c <= 'z' || '0' <= c <= '9'
}

/// `s` with each longest run of other characters than `a` to `z` and `0` to
/// `9` replaced by one `-`.
pub open spec fn dashed(s: Seq<char>) -> Seq<char>
    decreases s.len(),
{
    if s.len() == 0 {
        s
    } else if is_slug_char(s.last()) {
        dashed(s.drop_last()).push(s.last())
    } else if s.len() > 1 && !is_slug_char(s[s.len() - 2]) {
        dashed(s.drop_last())
    } else {
        dashed(s.drop_last()).push('-')
    }
}

/// `c` may stand in the random part of an access token.
pub open spec fn is_token_char(c: char) -> bool {
    'A' <= c <= 'Z' || 'a' <= c <= 'z' || '0' <= c <= '9'
}

/// `c` may stand in the random part of a fine-grained access token.
pub open spec fn is_pat_char(c: char) -> bool {
    is_token_char(c) || c == '_'
}

/// The length of the longest run of token characters from `i` on.
pub open spec fn token_run(s: Seq<char>, i: int, fine_grained: bool) -> nat
    decreases s.len() - i,
{
    if 0 <= i < s.len() && (if fine_grained {
        is_pat_char(s[i])
    } else {
        is_token_char(s[i])
    }) {
        1 + token_run(s, i + 1, fine_grained)
    } else {
        0
    }
}

/// The length of the access token that `s` begins with, or 0. A token begins
/// with `ghp_`, `gho_`, `ghu_`, `ghs_`, `ghr_` or `github_pat_`, goes on with
/// one token character at least, and reaches as far as such characters do.
pub open spec fn token_len(s: Seq<char>) -> nat {
    if s.len() > 3 && s[0] == 'g' && s[1] == 'h' && (s[2] == 'p' || s[2] == 'o' || s[2] == 'u'
        || s[2] == 's' || s[2] == 'r') && s[3] == '_' {
        if token_run(s, 4, false) > 0 {
            4 + token_run(s, 4, false)
        } else {
            0
        }
    } else if text::begins_with(s, "github_pat_"@) {
        if token_run(s, 11, true) > 0 {
            11 + token_run(s, 11, true)
        } else {
            0
        }
    } else {
        0
    }
}

/// `s` with each access token replaced by `mark`, from left to right.
pub open spec fn redacted(s: Seq<char>, mark: Seq<char>) -> Seq<char>
    decreases s.len(),
    via redacted_decreases
{
    if s.len() == 0 {
        s
    } else if token_len(s) > 0 {
        mark + redacted(s.skip(token_len(s) as int), mark)
    } else {
        seq![s[0]] + redacted(s.drop_first(), mark)
    }
}

proof fn lemma_token_run(s: Seq<char>, i: int, fine_grained: bool)
    requires
        0 <= i <= s.len(),
    ensures
        i + token_run(s, i, fine_grained) <= s.len(),
    decreases s.len() - i,
{
    if i < s.len() {
        lemma_token_run(s, i + 1, fine_grained);
    }
}

/// An access token lies within the text.
pub proof fn lemma_token_len(s: Seq<char>)
    ensures
        token_len(s) <= s.len(),
{
    reveal_strlit("github_pat_");
    if s.len() >= 4 {
        lemma_token_run(s, 4, false);
    }
    if s.len() >= 11 {
        lemma_token_run(s, 11, true);
    }
}

#[via_fn]
proof fn redacted_decreases(s: Seq<char>, mark: Seq<char>) {
    lemma_token_len(s);
}

/// The expression that access tokens match.
pub open spec fn token_pattern() -> Seq<char> {
    "gh[pousr]_[A-Za-z0-9]+|github_pat_[A-Za-z0-9_]+"@
}

/// A text with the matches of a pattern replaced, or nothing where the pattern
/// is malformed.
pub uninterp spec fn regex_replace_all_of(
    pattern: Seq<char>,
    s: Seq<char>,
    replacement: Seq<char>,
) -> Option<Seq<char>>;

pub open spec fn opt_view(v: Option<String>) -> Option<Seq<char>> {
    match v {
        Some(s) => Some(s@),
        None => None,
    }
}

/// `regex::Regex::new` and `Regex::replace_all`: the result depends on the
/// pattern, the text and the replacement alone. The pattern `[^a-z0-9]+` is
/// well formed and matches each longest run of characters outside the class,
/// whatever they are; the pattern of access tokens is well formed and matches
/// each access token, from left to right and as far as it reaches.
#[verifier::external_body]
pub(crate) fn regex_replace_all(pattern: &str, s: &str, replacement: &str) -> (r: Option<String>)
    ensures
        opt_view(r) == regex_replace_all_of(pattern@, s@, replacement@),
        pattern@ == "[^a-z0-9]+"@ && replacement@ == "-"@ ==> opt_view(r) == Some(dashed(s@)),
        pattern@ == token_pattern() && !replacement@.contains('$') ==> opt_view(r) == Some(
            redacted(s@, replacement@),
        ),
{
    regex::Regex::new(pattern).ok().map(|re| re.replace_all(s, replacement).into_owned())
}

/// `c` is an ASCII letter in the sense of a pattern that ignores case: the
/// Latin letters, and the two further characters that Unicode folds to one of
/// them, the long s and the Kelvin sign.
pub open spec fn is_folded_letter(c: char) -> bool {
    'A' <= c <= 'Z' || 'a' <= c <= 'z' || c == '\u{17f}' || c == '\u{212a}'
}

/// The length of the longest run of letters at the front of `s`.
pub open spec fn letter_run(s: Seq<char>) -> nat
    decreases s.len(),
{
    if s.len() > 0 && is_folded_letter(s[0]) {
        1 + letter_run(s.drop_first())
    } else {
        0
    }
}

/// `s` without a scope in brackets at its front.
pub open spec fn after_scope(s: Seq<char>) -> Seq<char> {
    let close = text::first_index(s, ')');
    if s.len() > 0 && s[0] == '(' && 1 < close < s.len() {
        s.skip(close + 1)
    } else {
        s
    }
}

/// `s` without an exclamation mark at its front.
pub open spec fn after_mark(s: Seq<char>) -> Seq<char> {
    if s.len() > 0 && s[0] == '!' {
        s.drop_first()
    } else {
        s
    }
}

/// `s` without the prefix of a conventional commit: letters, a scope in
/// brackets or none, an exclamation mark or none, a colon and white space.
pub open spec fn without_prefix(s: Seq<char>) -> Seq<char> {
    let rest = after_mark(after_scope(s.skip(letter_run(s) as int)));
    if letter_run(s) > 0 && rest.len() > 0 && rest[0] == ':' {
        text::drop_front(rest.drop_first(), text::CharSet::White)
    } else {
        s
    }
}

/// A text with the first match of a pattern replaced, or nothing where the
/// pattern is malformed.
pub uninterp spec fn regex_replace_of(
    pattern: Seq<char>,
    s: Seq<char>,
    replacement: Seq<char>,
) -> Option<Seq<char>>;

/// The expression that the prefix of a conventional commit matches.
pub open spec fn prefix_pattern() -> Seq<char> {
    "^(?i:[a-z]+)(?:\\([^\\)]+\\))?!?:\\s*"@
}

/// `regex::Regex::new` and `Regex::replace`: the result depends on the
/// pattern, the text and the replacement alone. The pattern of conventional
/// prefixes is well formed and matches at the front of the text or not at all.
#[verifier::external_body]
pub(crate) fn regex_replace(pattern: &str, s: &str, replacement: &str) -> (r: Option<String>)
    ensures
        opt_view(r) == regex_replace_of(pattern@, s@, replacement@),
        pattern@ == prefix_pattern() && replacement@ == ""@ ==> opt_view(r) == Some(
            without_prefix(s@),
        ),
{
    regex::Regex::new(pattern).ok().map(|re| re.replace(s, replacement).into_owned())
}

/// `c` is an ASCII character that cannot be part of a word.
pub open spec fn is_plain_end(c: char) -> bool {
    c <= '\u{7f}' && !is_pat_char(c)
}

/// `s` holds, from `i` on, one of the words in either case, `k` white spaces
/// and the issue `n`, with the end of the text or of the word behind it.
pub open spec fn closes_at(s: Seq<char>, word: Seq<char>, n: int, i: int, k: int) -> bool {
    let hash = i + word.len() + k;
    let end = hash + 1 + decimal::decimal(n).len();
    &&& 0 <= i
    &&& 1 <= k
    &&& end <= s.len()
    &&& text::same_but_case(s.subrange(i, i + word.len()), word)
    &&& forall|j: int| i + word.len() <= j < hash ==> text::is_white(#[trigger] s[j])
    &&& s[hash] == '#'
    &&& text::occurs_at(s, decimal::decimal(n), hash + 1)
    &&& end == s.len() || is_plain_end(s[end])
}

/// `s` says that it closes the issue `n`, in ASCII letters.
pub open spec fn closes_issue(s: Seq<char>, n: int) -> bool {
    exists|i: int, k: int|
        #![trigger closes_at(s, "Fixes"@, n, i, k)]
        closes_at(s, "Fixes"@, n, i, k) || closes_at(s, "Closes"@, n, i, k) || closes_at(
            s,
            "Resolves"@,
            n,
            i,
            k,
        )
}

/// The expression that a text matches which says that it closes the issue `n`.
pub open spec fn closing_pattern(n: int) -> Seq<char> {
    "(?i)(?:Fixes|Closes|Resolves)\\s+#"@ + decimal::decimal(n) + "\\b"@
}

/// Whether a text holds a match of a pattern, or nothing where the pattern is
/// malformed.
pub uninterp spec fn regex_is_match_of(pattern: Seq<char>, s: Seq<char>) -> Option<bool>;

/// `regex::Regex::new` and `Regex::is_match`: the result depends on the
/// pattern and the text alone. The pattern of closing words is well formed for
/// every 64-bit number; it matches wherever an issue is closed in ASCII
/// letters, in an ASCII text nowhere else, and in no text that does not hold
/// the number behind a `#`. Left unsaid is which letters beyond ASCII count as
/// parts of a word.
#[verifier::external_body]
pub(crate) fn regex_is_match(pattern: &str, s: &str) -> (r: Option<bool>)
    ensures
        r == regex_is_match_of(pattern@, s@),
        forall|n: i64|
            pattern@ == #[trigger] closing_pattern(n as int) ==> {
                &&& r is Some
                &&& closes_issue(s@, n as int) ==> r == Some(true)
                &&& r == Some(true) && is_ascii_chars(s@) ==> closes_issue(s@, n as int)
                &&& r == Some(true) ==> text::has_text(s@, "#"@ + decimal::decimal(n as int))
            },
{
    regex::Regex::new(pattern).ok().map(|re| re.is_match(s))
}

// ---------------------------------------------------------------------------
// Characters
// ---------------------------------------------------------------------------

/// A character is a lower-case letter.
pub uninterp spec fn is_lowercase_of(c: char) -> bool;

/// `char::is_lowercase` depends on the character alone; of the ASCII
/// characters, `a` to `z` are in lower case.
#[verifier::external_body]
pub(crate) fn is_lowercase(c: char) -> (r: bool)
    ensures
        r == is_lowercase_of(c),
        c <= '\u{7f}' ==> r == ('a' <= c <= 'z'),
{
    c.is_lowercase()
}

/// The upper case of a character, which may take several characters.
pub uninterp spec fn uppercase_of(c: char) -> Seq<char>;

/// The upper-case letter of a letter from `a` to `z`.
pub open spec fn ascii_upper(c: char) -> char {
    (c as u32 - 32) as char
}

/// `char::to_uppercase` depends on the character alone; the letters `a` to `z`
/// become `A` to `Z`.
#[verifier::external_body]
pub(crate) fn uppercase(c: char) -> (r: String)
    ensures
        r@ == uppercase_of(c),
        'a' <= c <= 'z' ==> r@ == seq![ascii_upper(c)],
{
    c.to_uppercase().collect()
}

// ---------------------------------------------------------------------------
// Quoted text
// ---------------------------------------------------------------------------

/// A text in quotes, with escapes for what cannot be shown as it is.
pub uninterp spec fn quoted_of(s: Seq<char>) -> Seq<char>;

/// `format!` with `{:?}` on a string depends on the string alone; ASCII letters
/// and digits are put between quotes as they are.
#[verifier::external_body]
pub(crate) fn quoted(s: &str) -> (r: String)
    ensures
        r@ == quoted_of(s@),
        (forall|i: int| 0 <= i < s@.len() ==> is_token_char(#[trigger] s@[i])) ==> r@ == seq!['"']
            + s@ + seq!['"'],
{
    format!("{:?}", s)
}

// ---------------------------------------------------------------------------
// JSON text
// ---------------------------------------------------------------------------

/// What is wrong with a text as a JSON value, in words; nothing where it is
/// one.
pub uninterp spec fn json_error_of(s: Seq<char>) -> Option<Seq<char>>;

/// `serde_json::from_str` into a `serde_json::Value`: whether it succeeds, and
/// the message of its error, depend on the text alone.
#[verifier::external_body]
pub(crate) fn json_error(s: &str) -> (r: Option<String>)
    ensures
        opt_view(r) == json_error_of(s@),
{
    serde_json::from_str::<serde_json::Value>(s).err().map(|e| e.to_string())
}

} // verus!
