//! Calls into other crates. Each function here makes one call, and its contract
//! is what the library takes for granted about that call.
use sha2::Digest;
use vstd::prelude::*;
use vstd::utf8::*;
use crate::api_threads::{RUNTIME_CONTEXT_MARK, RUNTIME_CONTEXT_PREFIX_PATTERN};
use crate::text;

verus! {

/// The SHA-256 digest of a byte string.
pub uninterp spec fn sha256_digest(bytes: Seq<u8>) -> Seq<u8>;

/// `sha2::Sha256::digest`: the digest is a function of the bytes alone, and is
/// 32 bytes long.
#[verifier::external_body]
pub(crate) fn sha256(bytes: &[u8]) -> (r: Vec<u8>)
    ensures
        r@ == sha256_digest(bytes@),
        r@.len() == 32,
{
    sha2::Sha256::digest(bytes).to_vec()
}

/// The hexadecimal digit, in lower case, for a value below sixteen.
pub open spec fn hex_digit(v: int) -> char {
    if v < 10 {
        (48 + v) as char
    } else {
        (87 + v) as char
    }
}

/// Two lower-case hexadecimal digits for each byte.
pub open spec fn hex_text(bytes: Seq<u8>) -> Seq<char> {
    Seq::new(
        2 * bytes.len(),
        |i: int|
            if i % 2 == 0 {
                hex_digit(bytes[i / 2] as int / 16)
            } else {
                hex_digit(bytes[i / 2] as int % 16)
            },
    )
}

/// `hex::encode`: two lower-case hexadecimal digits for each byte, the high half
/// first.
#[verifier::external_body]
pub(crate) fn hex_encode(bytes: &[u8]) -> (r: String)
    ensures
        r@ == hex_text(bytes@),
{
    hex::encode(bytes)
}

/// `text` with every match of `pattern` replaced by `replacement`; nothing where
/// `pattern` is no regular expression.
pub uninterp spec fn regex_replaced_all(
    pattern: Seq<char>,
    text: Seq<char>,
    replacement: Seq<char>,
) -> Option<Seq<char>>;

/// `regex::Regex::replace_all` on the expression that `regex::Regex::new` makes of
/// `pattern`: the result is a function of the three texts alone.
#[verifier::external_body]
pub(crate) fn regex_replace_all(pattern: &str, text: &str, replacement: &str) -> (r: Option<String>)
    ensures
        r.deep_view() == regex_replaced_all(pattern@, text@, replacement@),
{
    let expression = regex::Regex::new(pattern).ok()?;
    Some(expression.replace_all(text, replacement).into_owned())
}

/// `text` with the first match of `pattern` replaced by `replacement`; nothing
/// where `pattern` is no regular expression.
pub uninterp spec fn regex_replaced_first(
    pattern: Seq<char>,
    text: Seq<char>,
    replacement: Seq<char>,
) -> Option<Seq<char>>;

/// `regex::Regex::replace` on the expression that `regex::Regex::new` makes of
/// `pattern`: the result is a function of the three texts alone. The expression for a
/// runtime context is anchored with `^`, which matches at the beginning of a text only,
/// and goes on with the escaped form of its mark: it has no match in a text that does not
/// start with the mark, and a text without a match comes back unchanged.
#[verifier::external_body]
pub(crate) fn regex_replace_first(pattern: &str, text: &str, replacement: &str) -> (r: Option<String>)
    ensures
        r.deep_view() == regex_replaced_first(pattern@, text@, replacement@),
        pattern@ == RUNTIME_CONTEXT_PREFIX_PATTERN@ && !text::starts_with(
            text@,
            RUNTIME_CONTEXT_MARK@,
        ) ==> (r matches Some(rest) ==> rest@ == text@),
{
    let expression = regex::Regex::new(pattern).ok()?;
    Some(expression.replace(text, replacement).into_owned())
}

/// `s` in double quotes, as `Debug` writes it.
pub uninterp spec fn debug_quoted(s: Seq<char>) -> Seq<char>;

/// The `Debug` form of `str`, as `format!("{:?}", ..)` writes it: a function of the text
/// alone.
#[verifier::external_body]
pub(crate) fn debug_quote(s: &str) -> (r: String)
    ensures
        r@ == debug_quoted(s@),
{
    format!("{:?}", s)
}

/// Whether `s` is made of 32 hexadecimal digits in lower case.
pub open spec fn is_simple_uuid(s: Seq<char>) -> bool {
    s.len() == 32 && forall|i: int|
        0 <= i < 32 ==> ('0' <= #[trigger] s[i] <= '9' || 'a' <= s[i] <= 'f')
}

/// `uuid::Uuid::new_v4` in the form that `simple` gives it: 32 hexadecimal digits in lower
/// case. Which digits they are is left to chance.
#[verifier::external_body]
pub(crate) fn new_simple_uuid() -> (r: String)
    ensures
        is_simple_uuid(r@),
{
    uuid::Uuid::new_v4().simple().to_string()
}

/// Whether `s` has the form of a UUID with hyphens: 36 characters, a hyphen after eight,
/// after four more, and twice after four more, and else hexadecimal digits in lower case.
pub open spec fn is_hyphenated_uuid(s: Seq<char>) -> bool {
    s.len() == 36 && forall|i: int|
        0 <= i < 36 ==> if i == 8 || i == 13 || i == 18 || i == 23 {
            #[trigger] s[i] == '-'
        } else {
            '0' <= s[i] <= '9' || 'a' <= s[i] <= 'f'
        }
}

/// `uuid::Uuid::new_v4` in the form that `to_string` gives it: hexadecimal digits in lower
/// case with hyphens between their groups. Which digits they are is left to chance.
#[verifier::external_body]
pub(crate) fn new_hyphenated_uuid() -> (r: String)
    ensures
        is_hyphenated_uuid(r@),
{
    uuid::Uuid::new_v4().to_string()
}

/// Whether a path lies in the home directory: it is a tilde, or begins with a tilde and a
/// slash or a backslash.
pub open spec fn is_home_path(path: Seq<char>) -> bool {
    path.len() > 0 && path[0] == '~' && (path.len() == 1 || path[1] == '/' || path[1] == '\\')
}

/// `shellexpand::tilde`: puts the home directory in place of the tilde of a path in it, and
/// leaves every other path as it is. What the home directory is rests on the machine; what
/// follows the tilde stays.
#[verifier::external_body]
pub(crate) fn expand_tilde(path: &str) -> (r: String)
    ensures
        !is_home_path(path@) ==> r@ == path@,
        is_home_path(path@) ==> text::ends_with(r@, path@.skip(1)),
{
    shellexpand::tilde(path).into_owned()
}

/// A text in upper case.
pub uninterp spec fn upper_case(s: Seq<char>) -> Seq<char>;

/// `str::to_uppercase`: a function of the text alone. On ASCII characters it changes the
/// letters `a` to `z` to `A` to `Z` and nothing else.
#[verifier::external_body]
pub(crate) fn to_upper_case(s: &str) -> (r: String)
    ensures
        r@ == upper_case(s@),
        text::is_ascii(s@) ==> r@ == text::ascii_upper(s@),
{
    s.to_uppercase()
}

/// A text in lower case.
pub uninterp spec fn lower_case(s: Seq<char>) -> Seq<char>;

/// `str::to_lowercase`: a function of the text alone. On ASCII characters it changes the
/// letters `A` to `Z` to `a` to `z` and nothing else.
#[verifier::external_body]
pub(crate) fn to_lower_case(s: &str) -> (r: String)
    ensures
        r@ == lower_case(s@),
        text::is_ascii(s@) ==> r@ == text::ascii_lower(s@),
{
    s.to_lowercase()
}

/// `String::from_utf8`: the text that the bytes encode in UTF-8, where they encode one.
#[verifier::external_body]
pub(crate) fn text_from_utf8(bytes: Vec<u8>) -> (r: Option<String>)
    ensures
        r is Some == valid_utf8(bytes@),
        r matches Some(s) ==> s@ == decode_utf8(bytes@),
{
    String::from_utf8(bytes).ok()
}

/// The UUID that a text stands for, with hyphens and in lower case; nothing where it stands
/// for none.
pub uninterp spec fn uuid_named(s: Seq<char>) -> Option<Seq<char>>;

/// `uuid::Uuid::parse_str`, and `to_string` of what it gives: a function of the text alone.
/// What comes out has the form with hyphens, and a text in this form stands for itself.
#[verifier::external_body]
pub(crate) fn parse_uuid(s: &str) -> (r: Option<String>)
    ensures
        r.deep_view() == uuid_named(s@),
        r matches Some(u) ==> is_hyphenated_uuid(u@),
        is_hyphenated_uuid(s@) ==> r.deep_view() == Some(s@),
{
    uuid::Uuid::parse_str(s).ok().map(|u| u.to_string())
}

} // verus!
