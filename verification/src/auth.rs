//! Session and token data, and the pure parts of token handling: base64
//! payload normalization and decoding, expiry checking, and the session a
//! verified token yields. Parsing the decoded claims out of JSON is the
//! caller's concern.

use vstd::prelude::*;

verus! {

/// The failure kinds of token verification.
#[derive(Debug, Clone, Copy, PartialEq, Eq, Structural)]
pub enum AuthError {
    InvalidToken,
    TokenExpired,
}

/// A signed-in session.
#[derive(Debug, Clone)]
pub struct AuthSession {
    pub user_id: String,
    pub email: Option<String>,
    pub name: Option<String>,
    pub image_url: Option<String>,
    pub tier: String,
    pub session_token: String,
    pub expires_at: i64,
}

/// The claims carried by a session token.
#[derive(Debug)]
pub struct ClerkTokenClaims {
    pub sub: String,
    pub email: Option<String>,
    pub exp: i64,
    pub iat: i64,
}

/// The session slot an application holds.
#[derive(Debug)]
pub struct AuthState {
    pub session: Option<AuthSession>,
}

impl Default for AuthState {
    /// A fresh state holds no session.
    fn default() -> (r: Self)
        ensures
            r.session is None,
    {
        AuthState { session: None }
    }
}

impl AuthState {
    /// Store a verified session.
    pub fn store_session(&mut self, s: AuthSession)
        ensures
            final(self).session == Some(s),
    {
        self.session = Some(s);
    }

    /// Drop the session.
    pub fn clear_session(&mut self)
        ensures
            final(self).session is None,
    {
        self.session = None;
    }

    /// The stored session, unless it has expired or none is stored.
    pub fn live_session(&self, now: i64) -> (r: Option<&AuthSession>)
        ensures
            r matches Some(s) ==> self.session == Some(*s) && s.expires_at >= now,
            r is None <==> (self.session is None || (self.session matches Some(s) && s.expires_at
                < now)),
    {
        match &self.session {
            Some(s) => if s.expires_at >= now {
                Some(s)
            } else {
                None
            },
            None => None,
        }
    }
}

/// Check that the claims have not expired at the given time.
pub fn validate_claims(claims: &ClerkTokenClaims, now: i64) -> (r: Result<(), AuthError>)
    ensures
        r is Ok <==> claims.exp >= now,
        r matches Err(e) ==> e == AuthError::TokenExpired,
{
    if claims.exp < now {
        Err(AuthError::TokenExpired)
    } else {
        Ok(())
    }
}

/// Build the session that a verified token yields: the subject and email
/// carried over, the default tier, and the token itself retained.
pub fn session_from_claims(claims: ClerkTokenClaims, token: String) -> (s: AuthSession)
    ensures
        s.user_id == claims.sub,
        s.email == claims.email,
        s.name is None,
        s.image_url is None,
        s.tier@ == "free"@,
        s.session_token == token,
        s.expires_at == claims.exp,
{
    AuthSession {
        user_id: claims.sub,
        email: claims.email,
        name: None,
        image_url: None,
        tier: String::from_str("free"),
        session_token: token,
        expires_at: claims.exp,
    }
}

/// The payload padded out to a multiple of four bytes with `=`.
pub open spec fn spec_pad_base64(s: Seq<u8>) -> Seq<u8> {
    if s.len() % 4 == 2 {
        s + seq![61u8, 61u8]
    } else if s.len() % 4 == 3 {
        s + seq![61u8]
    } else {
        s
    }
}

/// The payload with the standard alphabet's `+` and `/` replaced by the URL
/// alphabet's `-` and `_`.
pub open spec fn spec_swap_url_chars(s: Seq<u8>) -> Seq<u8> {
    Seq::new(
        s.len(),
        |i: int|
            if s[i] == 43u8 {
                45u8
            } else if s[i] == 47u8 {
                95u8
            } else {
                s[i]
            },
    )
}

/// The payload with its trailing `=` padding removed.
pub open spec fn spec_drop_trailing_eq(s: Seq<u8>) -> Seq<u8>
    decreases s.len(),
{
    if s.len() > 0 && s.last() == 61u8 {
        spec_drop_trailing_eq(s.drop_last())
    } else {
        s
    }
}

/// Pad a base64 payload out to a multiple of four bytes with `=`.
pub fn pad_base64(payload: &[u8]) -> (r: Vec<u8>)
    ensures
        r@ == spec_pad_base64(payload@),
{
    let mut out = vstd::slice::slice_to_vec(payload);
    let rem = payload.len() % 4;
    if rem == 2 {
        out.push(61);
        out.push(61);
    } else if rem == 3 {
        out.push(61);
    }
    proof {
        assert(out@ =~= spec_pad_base64(payload@));
    }
    out
}

/// Rewrite a padded payload for the URL-safe alphabet: swap `+` and `/` for
/// `-` and `_`, and drop the trailing `=` padding.
pub fn normalize_base64_url(padded: &[u8]) -> (r: Vec<u8>)
    ensures
        r@ == spec_drop_trailing_eq(spec_swap_url_chars(padded@)),
{
    let mut out: Vec<u8> = Vec::new();
    let mut i: usize = 0;
    while i < padded.len()
        invariant
            i <= padded@.len(),
            out@.len() == i,
            forall|j: int| 0 <= j < i ==> out@[j] == spec_swap_url_chars(padded@)[j],
        decreases padded@.len() - i,
    {
        let b = padded[i];
        let c: u8 = if b == 43 {
            45
        } else if b == 47 {
            95
        } else {
            b
        };
        out.push(c);
        i = i + 1;
    }
    proof {
        assert(out@ =~= spec_swap_url_chars(padded@));
    }
    loop
        invariant
            spec_drop_trailing_eq(out@) == spec_drop_trailing_eq(spec_swap_url_chars(padded@)),
        ensures
            spec_drop_trailing_eq(out@) == spec_drop_trailing_eq(spec_swap_url_chars(padded@)),
            out@.len() == 0 || out@.last() != 61u8,
        decreases out@.len(),
    {
        let n = out.len();
        if n > 0 {
            let last = out[n - 1];
            if last == 61 {
                out.pop();
                continue ;
            }
        }
        break ;
    }
    proof {
        assert(out@.len() == 0 || out@.last() != 61u8);
        assert(spec_drop_trailing_eq(out@) == out@);
    }
    out
}

/// What base64 decoding with the URL-safe alphabet, unpadded, yields: the
/// decoded bytes, or nothing where the input is rejected.
pub uninterp spec fn b64_url_decode_of(data: Seq<u8>) -> Option<Seq<u8>>;

/// What base64 decoding with the standard alphabet yields: the decoded bytes,
/// or nothing where the input is rejected.
pub uninterp spec fn b64_std_decode_of(data: Seq<u8>) -> Option<Seq<u8>>;

/// Decode base64 with the URL-safe alphabet, no padding.
///
/// Relies on base64's `URL_SAFE_NO_PAD` engine: decoding is a function of the
/// input bytes alone, failing exactly on inputs outside the alphabet or of
/// invalid length.
#[verifier::external_body]
fn b64_url_decode(data: &[u8]) -> (r: Option<Vec<u8>>)
    ensures
        r matches Some(v) ==> b64_url_decode_of(data@) == Some(v@),
        r is Some <==> b64_url_decode_of(data@) is Some,
{
    base64::Engine::decode(&base64::engine::general_purpose::URL_SAFE_NO_PAD, data).ok()
}

/// Decode base64 with the standard alphabet.
///
/// Relies on base64's `STANDARD` engine: decoding is a function of the input
/// bytes alone, failing exactly on inputs outside the alphabet or of invalid
/// length or padding.
#[verifier::external_body]
fn b64_std_decode(data: &[u8]) -> (r: Option<Vec<u8>>)
    ensures
        r matches Some(v) ==> b64_std_decode_of(data@) == Some(v@),
        r is Some <==> b64_std_decode_of(data@) is Some,
{
    base64::Engine::decode(&base64::engine::general_purpose::STANDARD, data).ok()
}

/// Decode the claims segment of a session token: pad it, try the URL-safe
/// alphabet first, and fall back to the standard alphabet on the padded
/// original.
pub fn decode_token_payload(payload: &[u8]) -> (r: Result<Vec<u8>, AuthError>)
    ensures
        ({
            let padded = spec_pad_base64(payload@);
            let url_input = spec_drop_trailing_eq(spec_swap_url_chars(padded));
            match r {
                Ok(v) => b64_url_decode_of(url_input) == Some(v@) || (b64_url_decode_of(url_input)
                    is None && b64_std_decode_of(padded) == Some(v@)),
                Err(e) => {
                    &&& e == AuthError::InvalidToken
                    &&& b64_url_decode_of(url_input) is None
                    &&& b64_std_decode_of(padded) is None
                },
            }
        }),
{
    let padded = pad_base64(payload);
    let url_input = normalize_base64_url(padded.as_slice());
    match b64_url_decode(url_input.as_slice()) {
        Some(v) => Ok(v),
        None => match b64_std_decode(padded.as_slice()) {
            Some(v) => Ok(v),
            None => Err(AuthError::InvalidToken),
        },
    }
}

} // verus!
