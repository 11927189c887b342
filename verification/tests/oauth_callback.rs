use obs_chzzk_extension::chzzk::simple_url_encode;
use obs_chzzk_extension::oauth_server::{
    callback_request_is_decodable, decide_callback_request, find_raw_param, url_decodable, callback_response_text, constant_time_eq, error_response_text, evaluate_callback_request,
    extract_query_param, first_line_of, parse_request_line, split_target, success_response_text,
    url_decode, OAuthCallbackData, OAuthCallbackServer, MAX_REQUEST_BYTES,
};

#[test]
fn request_line_needs_three_words() {
    let (method, target) = parse_request_line("GET /callback?code=1 HTTP/1.1").unwrap();
    assert_eq!(method, "GET");
    assert_eq!(target, "/callback?code=1");
    let (m, t) = parse_request_line("  POST\t/x   HTTP/1.0 extra").unwrap();
    assert_eq!(m, "POST");
    assert_eq!(t, "/x");
    assert!(parse_request_line("GET /callback").is_none());
    assert!(parse_request_line("").is_none());
}

#[test]
fn target_splits_at_the_first_question_mark() {
    let (path, query) = split_target("/callback?code=a?b&state=c");
    assert_eq!(path, "/callback");
    assert_eq!(query, Some("code=a?b&state=c".to_string()));
    let (path, query) = split_target("/callback");
    assert_eq!(path, "/callback");
    assert_eq!(query, None);
}

#[test]
fn url_decode_handles_escapes_and_plus() {
    assert_eq!(url_decode("a%20b+c"), "a b c");
    assert_eq!(url_decode("%41%4a%4A"), "AJJ");
    assert_eq!(url_decode("100%"), "100%");
    assert_eq!(url_decode("%4"), "%4");
    assert_eq!(url_decode("%zz"), "%zz");
    assert_eq!(url_decode("%+1"), "\u{1}");
    assert_eq!(url_decode("%C3%A9"), "é");
    assert_eq!(url_decode("%FF"), "\u{FFFD}");
}

#[test]
fn query_param_reading_stops_at_a_pair_without_equals() {
    assert_eq!(extract_query_param("code=abc&state=x%2By", "state"), Some("x+y".to_string()));
    assert_eq!(extract_query_param("code=abc&state=x", "code"), Some("abc".to_string()));
    assert_eq!(extract_query_param("code=abc", "state"), None);
    assert_eq!(extract_query_param("flag&code=abc", "code"), None);
    assert_eq!(extract_query_param("code=a=b", "code"), Some("a=b".to_string()));
}

#[test]
fn constant_time_eq_compares_whole_texts() {
    assert!(constant_time_eq("state-1", "state-1"));
    assert!(constant_time_eq("", ""));
    assert!(!constant_time_eq("state-1", "state-2"));
    assert!(!constant_time_eq("abc", "abcd"));
    assert!(!constant_time_eq("", "x"));
}

#[test]
fn constant_time_eq_is_fooled_by_lengths_that_wrap() {
    let long = "\0".repeat(256);
    assert!(constant_time_eq("", &long));
}

#[test]
fn first_line_drops_the_carriage_return() {
    assert_eq!(first_line_of("GET / HTTP/1.1\r\nHost: x\r\n"), "GET / HTTP/1.1");
    assert_eq!(first_line_of("single"), "single");
}

fn outcome(request: &str, expected: &str) -> Result<OAuthCallbackData, String> {
    evaluate_callback_request(request.as_bytes(), expected)
}

#[test]
fn callback_is_accepted_with_matching_state() {
    let data = outcome("GET /callback?code=c%20d&state=s1 HTTP/1.1\r\nHost: 127.0.0.1\r\n\r\n", "s1")
        .ok()
        .unwrap();
    assert_eq!(data.code, "c d");
    assert_eq!(data.state, "s1");
}

#[test]
fn callback_errors_name_what_is_wrong() {
    assert_eq!(evaluate_callback_request(b"", "s").err().unwrap(), "Empty request");
    let big = vec![b'a'; MAX_REQUEST_BYTES];
    assert_eq!(evaluate_callback_request(&big, "s").err().unwrap(), "Request too large");
    assert_eq!(outcome("GET /callback\r\n", "s").err().unwrap(), "Malformed request line");
    assert_eq!(outcome("POST /callback?code=1&state=s HTTP/1.1", "s").err().unwrap(), "Unsupported HTTP method");
    assert_eq!(outcome("GET /other?code=1&state=s HTTP/1.1", "s").err().unwrap(), "Invalid callback path");
    assert_eq!(outcome("GET /callback HTTP/1.1", "s").err().unwrap(), "Missing query parameters");
    assert_eq!(outcome("GET /callback?state=s HTTP/1.1", "s").err().unwrap(), "Missing code parameter");
    assert_eq!(outcome("GET /callback?code=1 HTTP/1.1", "s").err().unwrap(), "Missing state parameter");
    assert_eq!(outcome("GET /callback?code=1&state=t HTTP/1.1", "s").err().unwrap(), "State mismatch");
    let long_code = format!("GET /callback?code={}&state=s HTTP/1.1", "x".repeat(2049));
    assert_eq!(outcome(&long_code, "s").err().unwrap(), "OAuth callback parameter too large");
}

#[test]
fn answers_carry_the_body_length() {
    let ok = success_response_text();
    assert!(ok.starts_with("HTTP/1.1 200 OK\r\nContent-Type: text/html; charset=utf-8\r\nContent-Length: 125\r\n"));
    assert!(ok.ends_with("<p>You can close this window and return to OBS.</p></body></html>"));
    let err = error_response_text("State mismatch");
    let body = "<!DOCTYPE html><html><body><h1>Authorization Failed</h1><p>Error: State mismatch</p></body></html>";
    assert_eq!(
        err,
        format!(
            "HTTP/1.1 400 Bad Request\r\nContent-Type: text/html; charset=utf-8\r\nContent-Length: {}\r\nConnection: close\r\n\r\n{}",
            body.len(),
            body
        )
    );
    let refused: Result<OAuthCallbackData, String> = Err("State mismatch".to_string());
    assert_eq!(callback_response_text(&refused), err);
}

#[test]
fn callback_server_keeps_the_result_until_read() {
    let mut server = OAuthCallbackServer::new();
    assert!(server.get_result().is_none());
    assert!(!server.is_shutdown());
    server.store_result(OAuthCallbackData { code: "c".to_string(), state: "s".to_string() });
    let got = server.get_result().unwrap();
    assert_eq!(got.code, "c");
    server.stop();
    assert!(server.is_shutdown());
}

#[test]
fn raw_params_are_found_before_decoding() {
    assert_eq!(find_raw_param("code=a%20b&state=s", "code"), Some("a%20b".to_string()));
    assert_eq!(find_raw_param("code=a", "state"), None);
    assert_eq!(find_raw_param("x&code=a", "code"), None);
}

#[test]
fn decoding_must_not_cut_a_character() {
    assert!(url_decodable("%41%20plain"));
    assert!(url_decodable("%é"));
    assert!(!url_decodable("%aé"));
    assert!(url_decodable("%41é"));
    assert!(callback_request_is_decodable(b"GET /callback?code=ok&state=s HTTP/1.1"));
    assert!(!callback_request_is_decodable("GET /callback?code=%aé&state=s HTTP/1.1".as_bytes()));
    assert!(!callback_request_is_decodable("GET /callback?code=x&state=%bé HTTP/1.1".as_bytes()));
    assert!(callback_request_is_decodable("GET /elsewhere?code=%aé HTTP/1.1".as_bytes()));
    assert!(callback_request_is_decodable("POST /callback?code=%aé HTTP/1.1".as_bytes()));
}

#[test]
fn decoding_gives_back_what_encoding_wrote() {
    for text in ["plain", "a b+c&d=e", "치지직 라이브", "%41", "~-_.", ""] {
        let encoded = simple_url_encode(text);
        assert!(url_decodable(&encoded));
        assert_eq!(url_decode(&encoded), text);
    }
}

#[test]
fn undecodable_requests_get_no_decision() {
    assert!(decide_callback_request("GET /callback?code=%aé&state=s HTTP/1.1".as_bytes(), "s").is_none());
    let decided = decide_callback_request(b"GET /callback?code=c&state=s HTTP/1.1", "s").unwrap();
    assert_eq!(decided.ok().unwrap().code, "c");
}

#[test]
fn size_is_checked_before_decoding() {
    let mut request = "GET /callback?code=%aé&state=s HTTP/1.1\r\n".as_bytes().to_vec();
    request.resize(MAX_REQUEST_BYTES, b'x');
    assert!(callback_request_is_decodable(&request));
    let decided = decide_callback_request(&request, "s").unwrap();
    assert_eq!(decided.err().unwrap(), "Request too large");
}
