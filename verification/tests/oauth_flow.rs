use obs_chzzk_extension::json::JsonValue;
use obs_chzzk_extension::oauth::{
    authorization_page_uri, exchange_request_for_callback, generate_oauth_state, hex_encode,
    oauth_redirect_uri, oauth_state_from, request_authorization_token, revoke_token,
    token_from_exchange_response,
};
use obs_chzzk_extension::oauth_server::OAuthCallbackData;
use obs_chzzk_extension::settings::PluginSettings;

fn configured() -> PluginSettings {
    let mut s = PluginSettings::default();
    s.chzzk_client_id = "cid".to_string();
    s.chzzk_client_secret = "secret".to_string();
    s
}

#[test]
fn redirect_uri_is_the_local_callback() {
    assert_eq!(oauth_redirect_uri(), "http://127.0.0.1:20132/callback");
}

#[test]
fn hex_encoding_uses_two_lower_digits() {
    assert_eq!(hex_encode(&[0, 15, 16, 255]), "000f10ff");
    assert_eq!(hex_encode(&[]), "");
}

#[test]
fn oauth_state_from_random_or_time() {
    assert_eq!(oauth_state_from(Some(vec![0xab, 0x01]), 7), "obs-chzzk-extension-ab01");
    assert_eq!(oauth_state_from(None, 255), "obs-chzzk-extension-fallback-ff");
    let state = generate_oauth_state();
    assert!(state.starts_with("obs-chzzk-extension-"));
    if !state.contains("fallback") {
        assert_eq!(state.len(), "obs-chzzk-extension-".len() + 48);
    }
}

#[test]
fn credentials_are_needed_to_link() {
    assert_eq!(
        request_authorization_token(&PluginSettings::default()).err().unwrap(),
        "obs-chzzk-extension: Client ID or Client Secret not configured"
    );
    assert!(request_authorization_token(&configured()).is_ok());
}

#[test]
fn authorization_page_carries_the_state() {
    let uri = authorization_page_uri(&configured(), "st").ok().unwrap();
    assert_eq!(
        uri,
        "https://chzzk.naver.com/account-interlock?responseType=code&clientId=cid&redirectUri=http%3A%2F%2F127.0.0.1%3A20132%2Fcallback&state=st"
    );
    assert_eq!(
        authorization_page_uri(&PluginSettings::default(), "st").err().unwrap(),
        "Failed to generate authorization URI: client_id is required"
    );
}

#[test]
fn callback_must_arrive_with_the_sent_state() {
    assert_eq!(
        exchange_request_for_callback(&configured(), None, "st").err().unwrap(),
        "OAuth callback server did not receive authorization code"
    );
    let wrong = OAuthCallbackData { code: "c".to_string(), state: "other".to_string() };
    assert_eq!(
        exchange_request_for_callback(&configured(), Some(wrong), "st").err().unwrap(),
        "OAuth state mismatch - CSRF detected"
    );
    let right = OAuthCallbackData { code: "c".to_string(), state: "st".to_string() };
    let req = exchange_request_for_callback(&configured(), Some(right), "st").ok().unwrap();
    assert_eq!(req.url, "https://openapi.chzzk.naver.com/auth/v1/token");
    let blank_code = OAuthCallbackData { code: " ".to_string(), state: "st".to_string() };
    assert_eq!(
        exchange_request_for_callback(&configured(), Some(blank_code), "st").err().unwrap(),
        "Failed to exchange authorization code: authorization_code is required"
    );
}

#[test]
fn exchange_answer_gives_the_token() {
    let ok = JsonValue::Object(vec![
        ("code".to_string(), JsonValue::Number(obs_chzzk_extension::json::JsonNumber { text: "200".to_string(), int_value: Some(200) })),
        ("content".to_string(), JsonValue::Object(vec![("accessToken".to_string(), JsonValue::Str("at".to_string()))])),
    ]);
    assert_eq!(token_from_exchange_response(&ok, "{}").ok().unwrap(), "at");
    let missing = JsonValue::Object(Vec::new());
    assert_eq!(
        token_from_exchange_response(&missing, "{}").err().unwrap(),
        "Failed to exchange authorization code: CHZZK token response missing accessToken: {}"
    );
}

#[test]
fn revoking_needs_a_token() {
    assert_eq!(
        revoke_token(&configured()).err().unwrap(),
        "obs-chzzk-extension: no authorization token to revoke"
    );
    let mut linked = configured();
    linked.chzzk_authorization_token = " tok ".to_string();
    let req = revoke_token(&linked).ok().unwrap();
    assert_eq!(req.url, "https://openapi.chzzk.naver.com/auth/v1/token/revoke");
}
