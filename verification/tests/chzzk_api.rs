use obs_chzzk_extension::chzzk::{
    extract_access_token, extract_live_item_thumbnail_url, extract_payload, extract_string,
    extract_string_array, is_sensitive_key, live_settings_from_response, mask_json_value,
    mask_secret, simple_url_encode, stream_key_from_response, to_api_error, validate_api_code,
    ApiFailure, ChzzkClient, ChzzkLiveSettingUpdate, HttpMethod, DEFAULT_API_BASE,
};
use obs_chzzk_extension::json::{JsonNumber, JsonValue};

fn text(s: &str) -> JsonValue {
    JsonValue::Str(s.to_string())
}

fn num(n: i64) -> JsonValue {
    JsonValue::Number(JsonNumber { text: n.to_string(), int_value: Some(n) })
}

fn obj(members: Vec<(&str, JsonValue)>) -> JsonValue {
    JsonValue::Object(members.into_iter().map(|(k, v)| (k.to_string(), v)).collect())
}

fn str_of(v: &JsonValue) -> Option<String> {
    match v {
        JsonValue::Str(s) => Some(s.clone()),
        _ => None,
    }
}

#[test]
fn mask_secret_hides_the_middle() {
    assert_eq!(mask_secret(""), "");
    assert_eq!(mask_secret("   "), "");
    assert_eq!(mask_secret("  abc  "), "***");
    assert_eq!(mask_secret("abcdef"), "***");
    assert_eq!(mask_secret("abcdefg"), "abc***fg");
    assert_eq!(mask_secret("  secret-token-value "), "sec***ue");
}

#[test]
fn simple_url_encode_escapes_reserved_bytes() {
    assert_eq!(simple_url_encode("AZaz09-_.~"), "AZaz09-_.~");
    assert_eq!(simple_url_encode("a b&c/é"), "a%20b%26c%2F%C3%A9");
    assert_eq!(
        simple_url_encode("http://127.0.0.1:20132/callback"),
        "http%3A%2F%2F127.0.0.1%3A20132%2Fcallback"
    );
}

#[test]
fn sensitive_keys_ignore_ascii_case() {
    assert!(is_sensitive_key("Client_Secret"));
    assert!(is_sensitive_key("Authorization"));
    assert!(is_sensitive_key("stream-KEY"));
    assert!(is_sensitive_key("refreshToken"));
    assert!(!is_sensitive_key("name"));
    assert!(!is_sensitive_key("tokens"));
}

#[test]
fn live_setting_update_is_empty_only_without_fields() {
    let update = ChzzkLiveSettingUpdate::new();
    assert!(update.is_empty());
    let mut with_tags = ChzzkLiveSettingUpdate::new();
    with_tags.tags = Some(Vec::new());
    assert!(!with_tags.is_empty());
}

#[test]
fn client_normalizes_the_api_base() {
    assert_eq!(ChzzkClient::new("   ").api_base, DEFAULT_API_BASE);
    assert_eq!(ChzzkClient::new(" https://api.example.test// ").api_base, "https://api.example.test");
    assert_eq!(ChzzkClient::new("x").auth_base, "https://chzzk.naver.com");
}

#[test]
fn authorization_uri_encodes_its_parts() {
    let client = ChzzkClient::new("");
    let uri = client
        .generate_authorization_uri(" my id ", "http://127.0.0.1:20132/callback", Some(" s1 "))
        .ok()
        .unwrap();
    assert_eq!(
        uri,
        "https://chzzk.naver.com/account-interlock?responseType=code&clientId=my%20id&redirectUri=http%3A%2F%2F127.0.0.1%3A20132%2Fcallback&state=s1"
    );
    let without_state = client.generate_authorization_uri("id", "r", Some("  ")).ok().unwrap();
    assert_eq!(
        without_state,
        "https://chzzk.naver.com/account-interlock?responseType=code&clientId=id&redirectUri=r"
    );
    assert_eq!(client.generate_authorization_uri(" ", "r", None).err().unwrap().0, "client_id is required");
    assert_eq!(client.generate_authorization_uri("id", "", None).err().unwrap().0, "redirect_uri is required");
}

#[test]
fn exchange_request_checks_its_arguments_in_order() {
    let client = ChzzkClient::new("https://api.example.test");
    assert_eq!(client.exchange_authorization_code("", "", "", "").err().unwrap().0, "client_id is required");
    assert_eq!(client.exchange_authorization_code("a", " ", "", "").err().unwrap().0, "client_secret is required");
    assert_eq!(
        client.exchange_authorization_code("a", "b", "", "").err().unwrap().0,
        "authorization_code is required"
    );
    assert_eq!(client.exchange_authorization_code("a", "b", "c", "").err().unwrap().0, "state is required");
    let req = client.exchange_authorization_code(" a ", "b", "c", "d").ok().unwrap();
    assert!(req.method == HttpMethod::Post);
    assert_eq!(req.url, "https://api.example.test/auth/v1/token");
    assert_eq!(req.headers, vec![("Content-Type".to_string(), "application/json".to_string())]);
    match req.body {
        Some(JsonValue::Object(members)) => {
            let keys: Vec<String> = members.iter().map(|(k, _)| k.clone()).collect();
            assert_eq!(keys, vec!["grantType", "clientId", "clientSecret", "code", "state"]);
            assert_eq!(str_of(&members[0].1), Some("authorization_code".to_string()));
            assert_eq!(str_of(&members[1].1), Some("a".to_string()));
        },
        _ => panic!("the exchange request has an object body"),
    }
}

#[test]
fn live_settings_request_carries_the_bearer_token() {
    let client = ChzzkClient::new("https://api.example.test/");
    let req = client.fetch_live_settings("tok");
    assert!(req.method == HttpMethod::Get);
    assert_eq!(req.url, "https://api.example.test/open/v1/lives/setting");
    assert_eq!(
        req.headers,
        vec![
            ("Authorization".to_string(), "Bearer tok".to_string()),
            ("Content-Type".to_string(), "application/json".to_string()),
        ]
    );
    assert!(req.body.is_none());
    assert_eq!(client.fetch_stream_key("  ").err().unwrap().0, "access_token is required");
    assert_eq!(client.fetch_stream_key(" k ").ok().unwrap().url, "https://api.example.test/open/v1/streams/key");
}

#[test]
fn revoke_request_checks_its_arguments() {
    let client = ChzzkClient::new("");
    assert_eq!(client.revoke_token("", "s", "t").err().unwrap().0, "client_id is required");
    assert_eq!(client.revoke_token("c", "", "t").err().unwrap().0, "client_secret is required");
    assert_eq!(client.revoke_token("c", "s", "").err().unwrap().0, "token is required");
    let req = client.revoke_token("c", "s", "t").ok().unwrap();
    assert_eq!(req.url, "https://openapi.chzzk.naver.com/auth/v1/token/revoke");
}

#[test]
fn api_code_other_than_200_is_an_error() {
    assert!(validate_api_code(&obj(vec![("code", num(200))])).is_ok());
    assert!(validate_api_code(&obj(vec![("content", obj(vec![]))])).is_ok());
    let err = validate_api_code(&obj(vec![("code", num(401)), ("message", text("bad token"))])).err().unwrap();
    assert_eq!(err.0, "CHZZK API error: code=401, message=bad token");
    let err = validate_api_code(&obj(vec![("code", num(500))])).err().unwrap();
    assert_eq!(err.0, "CHZZK API error: code=500, message=unknown error");
}

#[test]
fn strings_are_trimmed_and_blank_ones_dropped() {
    let v = obj(vec![
        ("a", text("  x  ")),
        ("b", text("   ")),
        ("c", num(3)),
        ("tags", JsonValue::Array(vec![text(" t1 "), text(" "), num(1), text("t2")])),
    ]);
    assert_eq!(extract_string(&v, "a"), Some("x".to_string()));
    assert_eq!(extract_string(&v, "b"), None);
    assert_eq!(extract_string(&v, "c"), None);
    assert_eq!(extract_string(&v, "missing"), None);
    assert_eq!(extract_string_array(&v, "tags"), Some(vec!["t1".to_string(), "t2".to_string()]));
    assert_eq!(extract_string_array(&v, "a"), None);
}

#[test]
fn payload_is_found_under_content_and_data() {
    let root = obj(vec![("content", obj(vec![("data", obj(vec![("x", text("1"))]))]))]);
    assert_eq!(extract_string(extract_payload(&root), "x"), Some("1".to_string()));
    let flat = obj(vec![("x", text("2"))]);
    assert_eq!(extract_string(extract_payload(&flat), "x"), Some("2".to_string()));
}

#[test]
fn access_token_is_read_from_either_spelling() {
    let root = obj(vec![("content", obj(vec![("access_token", text(" abc "))]))]);
    assert_eq!(extract_access_token(&root, "{}").ok().unwrap(), "abc");
    let err = extract_access_token(&obj(vec![]), "{\"x\":1}").err().unwrap();
    assert_eq!(err.0, "CHZZK token response missing accessToken: {\"x\":1}");
}

#[test]
fn thumbnail_url_follows_the_key_order() {
    let item = obj(vec![
        ("thumbnailImageUrl", text("third")),
        ("defaultThumbnailImageUrl", text("second")),
    ]);
    assert_eq!(extract_live_item_thumbnail_url(&item), Some("second".to_string()));
    let nested = obj(vec![("liveImage", obj(vec![("url", text("nested"))]))]);
    assert_eq!(extract_live_item_thumbnail_url(&nested), Some("nested".to_string()));
    assert_eq!(extract_live_item_thumbnail_url(&obj(vec![])), None);
}

#[test]
fn live_settings_prefer_the_category_object() {
    let root = obj(vec![(
        "content",
        obj(vec![
            ("defaultLiveTitle", text(" My stream ")),
            ("category", obj(vec![("categoryType", text("GAME")), ("categoryValue", text("Chess"))])),
            ("categoryId", text("chess")),
            ("tags", JsonValue::Array(vec![text("a")])),
        ]),
    )]);
    let live = live_settings_from_response(&root).ok().unwrap();
    assert_eq!(live.live_title, Some("My stream".to_string()));
    assert_eq!(live.category_type, Some("GAME".to_string()));
    assert_eq!(live.category_id, Some("chess".to_string()));
    assert_eq!(live.category_name, Some("Chess".to_string()));
    assert_eq!(live.tags, Some(vec!["a".to_string()]));
    assert!(live_settings_from_response(&obj(vec![("code", num(403))])).is_err());
}

#[test]
fn stream_key_must_be_present() {
    let root = obj(vec![("content", obj(vec![("streamKey", text(" key-1 "))]))]);
    assert_eq!(stream_key_from_response(&root, "{}").ok().unwrap().stream_key, "key-1");
    assert!(stream_key_from_response(&obj(vec![]), "{}").is_err());
}

#[test]
fn api_errors_name_the_status_and_detail() {
    let failure = ApiFailure::Status {
        status: 404,
        body: "{\"message\":\"not here\"}".to_string(),
        parsed_body: Some(obj(vec![("message", text("not here"))])),
    };
    assert_eq!(to_api_error(&failure, "CHZZK request failed").0, "CHZZK request failed (404): not here");
    let raw = ApiFailure::Status { status: 500, body: "oops".to_string(), parsed_body: None };
    assert_eq!(to_api_error(&raw, "ctx").0, "ctx (500): oops");
    let transport = ApiFailure::Transport("timed out".to_string());
    assert_eq!(to_api_error(&transport, "ctx").0, "ctx: timed out");
}

#[test]
fn masking_hides_sensitive_members() {
    let v = obj(vec![
        ("accessToken", text("abcdefghij")),
        ("refreshToken", JsonValue::Null),
        ("name", text("visible")),
        ("nested", obj(vec![("state", num(5))])),
        ("code", JsonValue::Array(vec![text("abcdefgh")])),
    ]);
    match mask_json_value(None, &v) {
        JsonValue::Object(members) => {
            assert_eq!(str_of(&members[0].1), Some("***".to_string()));
            assert!(matches!(members[1].1, JsonValue::Null));
            assert_eq!(str_of(&members[2].1), Some("visible".to_string()));
            match &members[3].1 {
                JsonValue::Object(inner) => assert_eq!(str_of(&inner[0].1), Some("***".to_string())),
                _ => panic!("nested object stays an object"),
            }
            assert_eq!(str_of(&members[4].1), Some("***".to_string()));
        },
        _ => panic!("an object stays an object"),
    }
    match mask_json_value(Some("token"), &JsonValue::Array(vec![text("abcdefgh")])) {
        JsonValue::Array(items) => assert_eq!(str_of(&items[0]), Some("abc***gh".to_string())),
        _ => panic!("an array stays an array"),
    }
}
