//! Who may use the HTTP interface, and from where.
use vstd::prelude::*;
use vstd::string::*;
use crate::api_error::{api_error, ApiError};
use crate::api_error;
use crate::config::ApiConfig;
use crate::config_resolve;
use crate::ip;
use crate::outside;
use crate::text;

verus! {

broadcast use vstd::string::group_string_axioms;

// ---------------------------------------------------------------------------
// Where the interface listens
// ---------------------------------------------------------------------------

/// The host without the brackets around it.
pub open spec fn without_brackets(host: Seq<char>) -> Seq<char> {
    if host.len() >= 2 && host[0] == '[' && host.last() == ']' {
        host.subrange(1, host.len() - 1)
    } else {
        host
    }
}

/// Whether the interface can only be reached from the machine itself. A name other than
/// `localhost` counts as one that can be reached from elsewhere.
pub open spec fn stays_local(addr: Seq<char>) -> bool {
    let host = text::trim(addr);
    text::same_ignoring_ascii_case(host, "localhost"@) || ip::is_loopback(without_brackets(host))
}

/// Decides whether the interface can only be reached from the machine itself.
pub fn is_loopback_bind(addr: &str) -> (r: bool)
    ensures
        r == stays_local(addr@),
{
    let host: String = text::trimmed(addr);
    if text::equals_ignoring_ascii_case(host.as_str(), "localhost") {
        return true;
    }
    let chars: Vec<char> = text::chars_of(host.as_str());
    if chars.len() >= 2 && chars[0] == '[' && chars[chars.len() - 1] == ']' {
        let bare: String = text::string_of(&chars, 1, chars.len() - 1);
        assert(bare@ =~= without_brackets(host@));
        ip::ip_is_loopback(bare.as_str())
    } else {
        ip::ip_is_loopback(host.as_str())
    }
}

/// Refuses to listen where the interface can be reached from elsewhere without a token.
pub fn validate_bind_security(addr: &str, has_token: bool) -> (r: Result<(), String>)
    ensures
        if stays_local(addr@) || has_token {
            r is Ok
        } else {
            r matches Err(e) && e@
                == "Refusing to bind the API control plane to non-loopback address "@
                + outside::debug_quoted(addr@)
                + " without authentication. Set [api].auth_token (or the ISANAGENT_API_TOKEN env var), or bind to 127.0.0.1."@
        },
{
    if is_loopback_bind(addr) || has_token {
        return Ok(());
    }
    let quoted: String = outside::debug_quote(addr);
    let mut why: String =
        "Refusing to bind the API control plane to non-loopback address ".to_owned();
    why.append(quoted.as_str());
    why.append(
        " without authentication. Set [api].auth_token (or the ISANAGENT_API_TOKEN env var), or bind to 127.0.0.1.",
    );
    Err(why)
}

/// What the HTTP interface is set up with.
#[derive(Debug)]
pub struct ApiSetup {
    pub port: u16,
    pub bind_address: Option<String>,
    pub serve_ui: bool,
    pub auth_token: Option<String>,
}

impl ApiSetup {
    /// What the settings come to. The token of the settings counts before that of the
    /// environment.
    pub fn new(config: &ApiConfig, env_token: &Option<String>) -> (r: Self)
        ensures
            r.port == config.port,
            r.bind_address.deep_view() == config_resolve::clean_text(config.bind_address),
            r.serve_ui == (config.serve_ui == Some(true)),
            r.auth_token.deep_view() == match config_resolve::clean_text(config.auth_token) {
                Some(t) => Some(t),
                None => config_resolve::clean_text(*env_token),
            },
    {
        let set: Option<String> = clean(&config.auth_token);
        ApiSetup {
            port: config.port,
            bind_address: clean(&config.bind_address),
            serve_ui: match config.serve_ui {
                Some(v) => v,
                None => false,
            },
            auth_token: if set.is_some() {
                set
            } else {
                clean(env_token)
            },
        }
    }

    /// Where the interface listens: on the machine itself where nothing is said.
    pub fn resolved_bind_address(&self) -> (r: String)
        ensures
            r@ == match self.bind_address {
                Some(a) => a@,
                None => "127.0.0.1"@,
            },
    {
        match &self.bind_address {
            Some(a) => a.clone(),
            None => "127.0.0.1".to_owned(),
        }
    }
}

fn clean(s: &Option<String>) -> (r: Option<String>)
    ensures
        r.deep_view() == config_resolve::clean_text(*s),
{
    match s {
        Some(t) => text::non_blank_text(t.as_str()),
        None => None,
    }
}

// ---------------------------------------------------------------------------
// Tokens
// ---------------------------------------------------------------------------

/// The token that a header brings.
pub open spec fn token_in(header: Seq<char>) -> Option<Seq<char>> {
    if text::starts_with(header, "Bearer "@) {
        Some(text::trim(header.skip("Bearer "@.len() as int)))
    } else if text::starts_with(header, "bearer "@) {
        Some(text::trim(header.skip("bearer "@.len() as int)))
    } else {
        None
    }
}

/// Whether a header brings the expected token. An empty one is never brought.
pub open spec fn is_authorized(header: Option<Seq<char>>, expected: Seq<char>) -> bool {
    expected.len() > 0 && match header {
        Some(h) => token_in(h) == Some(expected),
        None => false,
    }
}

/// Whether the texts are the same. Every byte is looked at, whatever the first that differs.
fn same_in_constant_time(a: &str, b: &str) -> (r: bool)
    ensures
        r == (a@ == b@),
{
    let left: &[u8] = a.as_bytes();
    let right: &[u8] = b.as_bytes();
    if left.len() != right.len() {
        return false;
    }
    let mut diff: u8 = 0;
    let mut i: usize = 0;
    while i < left.len()
        invariant
            i <= left@.len(),
            left@.len() == right@.len(),
            diff == 0 <==> forall|k: int| 0 <= k < i ==> left@[k] == #[trigger] right@[k],
        decreases left@.len() - i,
    {
        let x: u8 = left[i];
        let y: u8 = right[i];
        assert((diff | (x ^ y)) == 0 <==> diff == 0 && x == y) by (bit_vector);
        let ghost before = diff;
        diff = diff | (x ^ y);
        proof {
            if diff == 0 {
                assert forall|k: int| 0 <= k < i + 1 implies left@[k] == #[trigger] right@[k] by {}
            } else if before == 0 {
                assert(left@[i as int] != right@[i as int]);
            }
        }
        i = i + 1;
    }
    proof {
        if diff == 0 {
            assert(left@ =~= right@);
            vstd::utf8::encode_utf8_decode_utf8(a@);
            vstd::utf8::encode_utf8_decode_utf8(b@);
        }
    }
    diff == 0
}

/// Decides whether a header brings the expected token.
pub fn bearer_token_matches(auth_header: Option<&str>, expected: &str) -> (r: bool)
    ensures
        r == is_authorized(auth_header.deep_view(), expected@),
{
    if expected.is_empty() {
        return false;
    }
    match auth_header {
        None => false,
        Some(header) => {
            let rest: Option<String> = match text::without_prefix(header, "Bearer ") {
                Some(r) => Some(r),
                None => text::without_prefix(header, "bearer "),
            };
            match rest {
                None => false,
                Some(r) => {
                    let token: String = text::trimmed(r.as_str());
                    same_in_constant_time(token.as_str(), expected)
                },
            }
        },
    }
}

/// Lets a request through that brings the expected token, and refuses any other.
pub fn require_bearer_auth(auth_header: Option<&str>, expected: &str) -> (r: Result<(), ApiError>)
    ensures
        if is_authorized(auth_header.deep_view(), expected@) {
            r is Ok
        } else {
            r matches Err(e) && api_error::is_error(
                e,
                401,
                "unauthorized"@,
                "Missing or invalid `Authorization: Bearer` token."@,
            )
        },
{
    if bearer_token_matches(auth_header, expected) {
        Ok(())
    } else {
        Err(
            api_error(401, "unauthorized", "Missing or invalid `Authorization: Bearer` token."),
        )
    }
}

// ---------------------------------------------------------------------------
// Laws
// ---------------------------------------------------------------------------

/// The interface never listens where it can be reached from elsewhere unless a token guards
/// it; and where a token guards it, a request without it is refused.
pub proof fn law_open_interface_is_guarded(addr: Seq<char>, token: Option<Seq<char>>)
    requires
        stays_local(addr) || token is Some,
    ensures
        !stays_local(addr) ==> token is Some && !is_authorized(None, token->0),
{
}

/// A header with the token behind its scheme brings the token, where it has no white space
/// at its ends.
pub proof fn law_token_is_accepted(token: Seq<char>)
    requires
        token.len() > 0,
        text::trim(token) == token,
    ensures
        is_authorized(Some("Bearer "@ + token), token),
{
    text::lemma_starts_with_concat("Bearer "@, token);
    assert(("Bearer "@ + token).skip("Bearer "@.len() as int) =~= token);
}

/// Only the expected token is accepted.
pub proof fn law_other_token_is_refused(header: Seq<char>, a: Seq<char>, b: Seq<char>)
    requires
        is_authorized(Some(header), a),
        is_authorized(Some(header), b),
    ensures
        a == b,
{
}

/// A request is let through only with the word `Bearer` and the token, trimmed, behind it; a
/// header with any other beginning brings no token, and no request is let through where no
/// token is expected.
pub proof fn law_only_the_token_lets_through(header: Seq<char>, token: Seq<char>)
    ensures
        token.len() > 0 && header == "Bearer "@ + token ==> (is_authorized(Some(header), token)
            <==> text::trim(token) == token),
        token.len() > 0 && header == "bearer "@ + token ==> (is_authorized(Some(header), token)
            <==> text::trim(token) == token),
        !text::starts_with(header, "Bearer "@) && !text::starts_with(header, "bearer "@)
            ==> token_in(header) is None && !is_authorized(Some(header), token),
        !is_authorized(None, token),
        !is_authorized(Some(header), Seq::empty()),
        is_authorized(Some(header), token) ==> text::ends_with(text::trim_end(header), token),
{
    reveal_strlit("Bearer ");
    reveal_strlit("bearer ");
    text::lemma_starts_with_concat("Bearer "@, token);
    text::lemma_starts_with_concat("bearer "@, token);
    assert(("Bearer "@ + token).skip(7) =~= token);
    assert(("bearer "@ + token).skip(7) =~= token);
    if text::starts_with("bearer "@ + token, "Bearer "@) {
        assert(("bearer "@ + token).subrange(0, 7)[0] == 'b');
        assert("Bearer "@[0] == 'B');
    }
    if is_authorized(Some(header), token) {
        let rest = header.skip(7);
        assert(text::trim(rest) == token);
        lemma_trim_is_tail(header, rest, token);
    }
}

proof fn lemma_trim_end_of_tail(s: Seq<char>, n: int)
    requires
        0 <= n <= s.len(),
        text::trim_end(s.skip(n)).len() > 0,
    ensures
        text::trim_end(s).len() >= n,
        text::trim_end(s).skip(n) == text::trim_end(s.skip(n)),
    decreases s.len(),
{
    let t = s.skip(n);
    assert(t.len() > 0);
    assert(t.last() == s.last());
    if text::is_white_space(s.last()) {
        assert(t.drop_last() =~= s.drop_last().skip(n));
        lemma_trim_end_of_tail(s.drop_last(), n);
    }
}

proof fn lemma_trim_is_tail(header: Seq<char>, rest: Seq<char>, token: Seq<char>)
    requires
        header.len() >= 7,
        rest == header.skip(7),
        text::trim(rest) == token,
        token.len() > 0,
    ensures
        text::ends_with(text::trim_end(header), token),
{
    let ends = text::law_trim_takes_white_space_only(rest);
    let n = 7 + ends.0.len() as int;
    let tail = token + ends.1;
    assert(rest =~= ends.0 + tail);
    assert(rest.skip(ends.0.len() as int) =~= tail);
    assert(header.skip(n) =~= rest.skip(ends.0.len() as int));
    lemma_trim_end_of_blanks(token, ends.1);
    lemma_trim_end_of_tail(header, n);
    let t = text::trim_end(header);
    assert(t.skip(n) == token);
    assert(t.subrange(t.len() - token.len(), t.len() as int) =~= token);
}

proof fn lemma_trim_end_of_blanks(s: Seq<char>, blanks: Seq<char>)
    requires
        s.len() > 0,
        !text::is_white_space(s.last()),
        forall|i: int| 0 <= i < blanks.len() ==> text::is_white_space(#[trigger] blanks[i]),
    ensures
        text::trim_end(s + blanks) == s,
    decreases blanks.len(),
{
    let all = s + blanks;
    if blanks.len() == 0 {
        assert(all =~= s);
    } else {
        assert(all.last() == blanks[blanks.len() - 1]);
        assert(all.drop_last() =~= s + blanks.drop_last());
        lemma_trim_end_of_blanks(s, blanks.drop_last());
    }
}

/// An interface stays local under the name `localhost` in any case, and under a loopback address
/// with or without brackets round it; white space around it makes no difference.
pub proof fn law_loopback_stays_local(addr: Seq<char>, inner: Seq<char>)
    ensures
        text::ascii_lower(text::trim(addr)) == "localhost"@ ==> stays_local(addr),
        text::trim(addr) == inner && !(inner.len() >= 2 && inner[0] == '[') ==> (stays_local(addr)
            <==> text::ascii_lower(inner) == "localhost"@ || ip::is_loopback(inner)),
        text::trim(addr) == "["@ + inner + "]"@ ==> (stays_local(addr) <==> ip::is_loopback(
            inner,
        )),
{
    reveal_strlit("localhost");
    reveal_strlit("[");
    reveal_strlit("]");
    assert(text::ascii_lower("localhost"@) =~= "localhost"@);
    let boxed = "["@ + inner + "]"@;
    assert(boxed[0] == '[' && boxed.last() == ']');
    assert(boxed.subrange(1, boxed.len() - 1) =~= inner);
    assert(text::ascii_lower(boxed)[0] == '[');
    assert("localhost"@[0] == 'l');
}

} // verus!
