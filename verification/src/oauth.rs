//! Linking and unlinking the CHZZK account: the checks and messages of the
//! OAuth flow. Running the callback listener, opening the browser and the
//! HTTP calls are the caller's.

use vstd::prelude::*;

use crate::chzzk::{
    access_token_of, api_code_message, authorization_uri, extract_access_token, response_code,
    text_object, post_request, validate_api_code, ApiRequest, ApiRequestView, ChzzkClient,
    normalized_api_base,
};
use crate::json::JsonValue;
use crate::oauth_server::OAuthCallbackData;
use crate::settings::{context_error, with_context, PluginSettings, PluginSettingsView, OAUTH_CALLBACK_PORT};
use crate::system::{random_bytes, unix_time_nanos};
use crate::text::{
    blank, decimal, hex2_lower, hex_lower, is_blank, push_decimal, push_hex2_lower, push_str,
    str_eq, to_owned_string, trim,
};

verus! {

/// Random bytes in an OAuth state.
pub const OAUTH_STATE_RANDOM_BYTES: usize = 24;

/// The redirect URI of the local callback endpoint.
pub open spec fn redirect_uri() -> Seq<char> {
    "http://127.0.0.1:"@ + decimal(OAUTH_CALLBACK_PORT as nat) + "/callback"@
}

/// The redirect URI of the local callback endpoint.
pub fn oauth_redirect_uri() -> (r: String)
    ensures
        r@ == redirect_uri(),
{
    let mut r = String::new();
    push_str(&mut r, "http://127.0.0.1:");
    push_decimal(&mut r, OAUTH_CALLBACK_PORT as u64);
    push_str(&mut r, "/callback");
    r
}

/// Lower-case hex of a byte string, two digits a byte.
pub open spec fn hex_bytes(b: Seq<u8>) -> Seq<char>
    decreases b.len(),
{
    if b.len() == 0 {
        Seq::empty()
    } else {
        hex_bytes(b.drop_last()) + hex2_lower(b.last())
    }
}

/// Lower-case hex of a byte string.
pub fn hex_encode(bytes: &[u8]) -> (r: String)
    ensures
        r@ == hex_bytes(bytes@),
{
    let mut r = String::new();
    let mut i: usize = 0;
    while i < bytes.len()
        invariant
            i <= bytes.len(),
            r@ == hex_bytes(bytes@.subrange(0, i as int)),
        decreases bytes.len() - i,
    {
        assert(bytes@.subrange(0, i + 1).drop_last() == bytes@.subrange(0, i as int));
        push_hex2_lower(&mut r, bytes[i]);
        i += 1;
    }
    assert(bytes@.subrange(0, bytes@.len() as int) == bytes@);
    r
}

fn push_hex_u128(s: &mut String, n: u128)
    ensures
        final(s)@ == old(s)@ + hex_lower(n as nat),
    decreases n,
{
    if n >= 16 {
        push_hex_u128(s, n / 16);
    }
    crate::text::push_char(s, crate::text::digit_to_char((n % 16) as u8));
    proof {
        if n >= 16 {
            assert(old(s)@ + hex_lower(n as nat) == (old(s)@ + hex_lower((n / 16) as nat)).push(
                crate::text::digit_char((n % 16) as nat),
            ));
        } else {
            assert(old(s)@ + hex_lower(n as nat) == old(s)@.push(crate::text::digit_char(n as nat)));
        }
    }
}

/// The OAuth state made from random bytes, or, where none were had, from
/// the time in nanoseconds.
pub open spec fn oauth_state_text(random: Option<Seq<u8>>, fallback_nanos: u128) -> Seq<char> {
    match random {
        Some(r) => "obs-chzzk-extension-"@ + hex_bytes(r),
        None => "obs-chzzk-extension-fallback-"@ + hex_lower(fallback_nanos as nat),
    }
}

/// The OAuth state made from random bytes, or from the time where the
/// random source failed.
pub fn oauth_state_from(random: Option<Vec<u8>>, fallback_nanos: u128) -> (r: String)
    ensures
        r@ == oauth_state_text(
            match random {
                Some(v) => Some(v@),
                None => None,
            },
            fallback_nanos,
        ),
{
    let mut r = String::new();
    match random {
        Some(bytes) => {
            push_str(&mut r, "obs-chzzk-extension-");
            let h = hex_encode(bytes.as_slice());
            push_str(&mut r, h.as_str());
        },
        None => {
            push_str(&mut r, "obs-chzzk-extension-fallback-");
            push_hex_u128(&mut r, fallback_nanos);
        },
    }
    r
}

/// A fresh OAuth state: 24 random bytes in hex, or the time where the
/// random source fails.
pub fn generate_oauth_state() -> (r: String)
    ensures
        (exists|b: Seq<u8>| b.len() == OAUTH_STATE_RANDOM_BYTES && r@ == oauth_state_text(Some(b), 0))
            || (exists|t: u128| r@ == oauth_state_text(None, t)),
{
    let random = random_bytes(OAUTH_STATE_RANDOM_BYTES);
    match random {
        Some(bytes) => {
            let ghost b = bytes@;
            let r = oauth_state_from(Some(bytes), 0);
            assert(r@ == oauth_state_text(Some(b), 0));
            r
        },
        None => {
            let t = unix_time_nanos();
            let r = oauth_state_from(None, t);
            assert(r@ == oauth_state_text(None, t));
            r
        },
    }
}

/// The message for missing client credentials.
pub open spec fn credentials_missing_message() -> Seq<char> {
    "obs-chzzk-extension: Client ID or Client Secret not configured"@
}

/// Whether the client credentials are configured.
pub open spec fn has_credentials(s: PluginSettingsView) -> bool {
    !blank(s.chzzk_client_id) && !blank(s.chzzk_client_secret)
}

/// The first check of `request_authorization_token`: client credentials
/// must be configured.
pub fn request_authorization_token(settings: &PluginSettings) -> (r: Result<(), String>)
    ensures
        has_credentials(settings@) <==> r is Ok,
        r matches Err(e) ==> e@ == credentials_missing_message(),
{
    if is_blank(settings.chzzk_client_id.as_str()) || is_blank(settings.chzzk_client_secret.as_str()) {
        return Err(to_owned_string("obs-chzzk-extension: Client ID or Client Secret not configured"));
    }
    Ok(())
}

/// The account-link page to open for `state`.
pub fn authorization_page_uri(settings: &PluginSettings, state: &str) -> (r: Result<String, String>)
    ensures
        blank(settings.chzzk_client_id@) ==> (r matches Err(e) && e@ == with_context(
            "Failed to generate authorization URI"@,
            "client_id is required"@,
        )),
        !blank(settings.chzzk_client_id@) ==> (r matches Ok(u) && u@ == authorization_uri(
            crate::chzzk::DEFAULT_AUTH_BASE@,
            settings.chzzk_client_id@,
            redirect_uri(),
            Some(state@),
        )),
{
    let client = ChzzkClient::new(settings.chzzk_api_base_url.as_str());
    let redirect = oauth_redirect_uri();
    assert(!blank(redirect@)) by {
        reveal_strlit("http://127.0.0.1:");
        assert(redirect@[0] == 'h');
    }
    match client.generate_authorization_uri(settings.chzzk_client_id.as_str(), redirect.as_str(), Some(state)) {
        Ok(u) => Ok(u),
        Err(e) => {
            Err(context_error("Failed to generate authorization URI", e.0.as_str()))
        },
    }
}

/// The token request for a callback: the callback must have arrived and
/// carry the state that was sent.
pub open spec fn callback_check(callback: Option<(Seq<char>, Seq<char>)>, state: Seq<char>) -> Option<Seq<char>> {
    match callback {
        None => Some("OAuth callback server did not receive authorization code"@),
        Some((_, s)) => if s != state {
            Some("OAuth state mismatch - CSRF detected"@)
        } else {
            None
        },
    }
}

/// Which argument of the code exchange is missing, where one is: the
/// client id, the secret, the code and the state are needed in that order.
pub open spec fn exchange_missing(
    client_id: Seq<char>,
    client_secret: Seq<char>,
    code: Seq<char>,
    state: Seq<char>,
) -> Option<Seq<char>> {
    if blank(client_id) {
        Some("client_id is required"@)
    } else if blank(client_secret) {
        Some("client_secret is required"@)
    } else if blank(code) {
        Some("authorization_code is required"@)
    } else if blank(state) {
        Some("state is required"@)
    } else {
        None
    }
}

/// The code exchange request after the callback (the last part of
/// `request_authorization_token`); its answer is read by
/// [`token_from_exchange_response`].
pub fn exchange_request_for_callback(
    settings: &PluginSettings,
    callback: Option<OAuthCallbackData>,
    state: &str,
) -> (r: Result<ApiRequest, String>)
    ensures
        callback_check(
            match callback {
                Some(d) => Some((d.code@, d.state@)),
                None => None,
            },
            state@,
        ) matches Some(m) ==> (r matches Err(e) && e@ == m),
        (match callback {
            Some(d) => d.state@ == state@ ==> (match exchange_missing(
            settings.chzzk_client_id@,
            settings.chzzk_client_secret@,
            d.code@,
            state@,
        ) {
            Some(m) => r matches Err(e) && e@ == with_context("Failed to exchange authorization code"@, m),
            None => r matches Ok(req) && req@ == post_request(
                normalized_api_base(settings.chzzk_api_base_url@) + "/auth/v1/token"@,
                text_object(
                    seq![
                        ("grantType"@, "authorization_code"@),
                        ("clientId"@, trim(settings.chzzk_client_id@)),
                        ("clientSecret"@, trim(settings.chzzk_client_secret@)),
                        ("code"@, trim(d.code@)),
                        ("state"@, trim(state@)),
                    ],
                ),
            ),
        }),
            None => true,
        }),
{
    let data = match callback {
        Some(d) => d,
        None => return Err(to_owned_string("OAuth callback server did not receive authorization code")),
    };
    if !str_eq(data.state.as_str(), state) {
        return Err(to_owned_string("OAuth state mismatch - CSRF detected"));
    }
    let client = ChzzkClient::new(settings.chzzk_api_base_url.as_str());
    match client.exchange_authorization_code(
        settings.chzzk_client_id.as_str(),
        settings.chzzk_client_secret.as_str(),
        data.code.as_str(),
        state,
    ) {
        Ok(req) => Ok(req),
        Err(e) => Err(context_error("Failed to exchange authorization code", e.0.as_str())),
    }
}

/// The access token of the exchange answer, or the error naming the
/// exchange. `rendered_root` is the answer as JSON text.
pub fn token_from_exchange_response(root: &JsonValue, rendered_root: &str) -> (r: Result<String, String>)
    ensures
        response_code(root@) != 200 ==> (r matches Err(e) && e@ == with_context(
            "Failed to exchange authorization code"@,
            api_code_message(root@),
        )),
        response_code(root@) == 200 ==> match access_token_of(root@) {
            Some(t) => r matches Ok(rt) && rt@ == t,
            None => r matches Err(e) && e@ == with_context(
                "Failed to exchange authorization code"@,
                "CHZZK token response missing accessToken: "@ + rendered_root@,
            ),
        },
{
    match validate_api_code(root) {
        Ok(()) => {},
        Err(e) => return Err(context_error("Failed to exchange authorization code", e.0.as_str())),
    }
    match extract_access_token(root, rendered_root) {
        Ok(t) => Ok(t),
        Err(e) => Err(context_error("Failed to exchange authorization code", e.0.as_str())),
    }
}

/// The request that revokes the linked token, where credentials and a token
/// are configured.
pub fn revoke_token(settings: &PluginSettings) -> (r: Result<ApiRequest, String>)
    ensures
        !has_credentials(settings@) ==> (r matches Err(e) && e@ == credentials_missing_message()),
        has_credentials(settings@) && blank(settings.chzzk_authorization_token@) ==> (r matches Err(e)
            && e@ == "obs-chzzk-extension: no authorization token to revoke"@),
        has_credentials(settings@) && !blank(settings.chzzk_authorization_token@) ==> (r matches Ok(req)
            && req@ == post_request(
            normalized_api_base(settings.chzzk_api_base_url@) + "/auth/v1/token/revoke"@,
            text_object(
                seq![
                    ("clientId"@, trim(settings.chzzk_client_id@)),
                    ("clientSecret"@, trim(settings.chzzk_client_secret@)),
                    ("token"@, trim(settings.chzzk_authorization_token@)),
                ],
            ),
        )),
{
    request_authorization_token(settings)?;
    if is_blank(settings.chzzk_authorization_token.as_str()) {
        return Err(to_owned_string("obs-chzzk-extension: no authorization token to revoke"));
    }
    let client = ChzzkClient::new(settings.chzzk_api_base_url.as_str());
    match client.revoke_token(
        settings.chzzk_client_id.as_str(),
        settings.chzzk_client_secret.as_str(),
        settings.chzzk_authorization_token.as_str(),
    ) {
        Ok(req) => Ok(req),
        Err(e) => Err(context_error("Failed to revoke CHZZK token", e.0.as_str())),
    }
}

} // verus!
