//! CHZZK Open API: request shaping, response reading and secret masking.
//!
//! The HTTP exchange itself is performed by the caller: each API operation is
//! split into a function that validates its inputs and describes the request
//! ([`ApiRequest`]), and a function that reads the decoded JSON response.

use vstd::prelude::*;
use vstd::utf8::encode_utf8;

use crate::json::{
    as_int, as_items, as_text, entries_view, field, field_or_self, items_view, lemma_entries_view,
    lemma_items_view, lemma_lookup_at, lookup,
    JsonValue, JsonView,
};
use crate::text::{
    ascii_lower_seq, ascii_lowercase, blank, decimal, decimal_int, hex2_upper, is_blank,
    lemma_trim_empty_iff_blank, lemma_trim_idempotent, push_char, push_decimal, push_decimal_i64,
    push_hex2_upper, push_str, str_eq, string_from_range, to_owned_string, trim, trim_chars,
    trim_string,
};

verus! {

/// Base URL of the CHZZK Open API.
pub const DEFAULT_API_BASE: &'static str = "https://openapi.chzzk.naver.com";

/// Base URL of the CHZZK account pages.
pub const DEFAULT_AUTH_BASE: &'static str = "https://chzzk.naver.com";

/// Base URL of the CHZZK service API used for live details.
pub const DEFAULT_SERVICE_BASE: &'static str = "https://api.chzzk.naver.com";

/// Browser user agent sent to the service API.
pub const DEFAULT_UNOFFICIAL_USER_AGENT: &'static str =
    "Mozilla/5.0 (X11; Linux x86_64) AppleWebKit/537.36 (KHTML, like Gecko) Chrome/124.0.0.0 Safari/537.36";

/// Replacement text for secrets.
pub const MASKED: &'static str = "***";

/// The live settings of a channel.
pub struct ChzzkLiveSettings {
    pub live_title: Option<String>,
    pub category_type: Option<String>,
    pub category_id: Option<String>,
    pub category_name: Option<String>,
    pub tags: Option<Vec<String>>,
}

/// One category search hit.
pub struct ChzzkCategory {
    pub category_type: String,
    pub category_id: String,
    pub category_value: String,
    pub poster_image_url: Option<String>,
}

/// A partial update of the live settings; `None` leaves a field unchanged.
pub struct ChzzkLiveSettingUpdate {
    pub default_live_title: Option<String>,
    pub category_type: Option<String>,
    pub category_id: Option<String>,
    pub tags: Option<Vec<String>>,
}

/// Channel identity of the signed-in user.
pub struct ChzzkUserChannelInfo {
    pub channel_id: Option<String>,
    pub channel_name: Option<String>,
}

/// The RTMP stream key of the channel.
pub struct ChzzkStreamKey {
    pub stream_key: String,
}

/// A client of the CHZZK API: the API base URL and the account-page base
/// URL.
pub struct ChzzkClient {
    pub api_base: String,
    pub auth_base: String,
}

/// An API failure, described by a message.
pub struct ChzzkApiError(pub String);

impl ChzzkLiveSettingUpdate {
    /// An update that changes nothing.
    pub fn new() -> (u: Self)
        ensures
            u.default_live_title is None,
            u.category_type is None,
            u.category_id is None,
            u.tags is None,
    {
        ChzzkLiveSettingUpdate {
            default_live_title: None,
            category_type: None,
            category_id: None,
            tags: None,
        }
    }

    /// Whether the update leaves every field unchanged.
    pub open spec fn is_empty_spec(&self) -> bool {
        &&& self.default_live_title is None
        &&& self.category_type is None
        &&& self.category_id is None
        &&& self.tags is None
    }

    /// Whether the update leaves every field unchanged.
    pub fn is_empty(&self) -> (b: bool)
        ensures
            b == self.is_empty_spec(),
    {
        self.default_live_title.is_none() && self.category_type.is_none()
            && self.category_id.is_none() && self.tags.is_none()
    }
}

/// A message error.
pub fn api_error(message: &str) -> (e: ChzzkApiError)
    ensures
        e.0@ == message@,
{
    ChzzkApiError(to_owned_string(message))
}

// ---------------------------------------------------------------------------
// Secret masking
// ---------------------------------------------------------------------------

/// `value` shown with all but its first three and last two characters hidden;
/// blank text gives the empty text, text of at most six characters gives
/// `***`.
pub open spec fn masked_secret(value: Seq<char>) -> Seq<char> {
    let t = trim(value);
    if t.len() == 0 {
        Seq::empty()
    } else if t.len() <= 6 {
        MASKED@
    } else {
        t.subrange(0, 3) + MASKED@ + t.subrange(t.len() - 2, t.len() as int)
    }
}

/// Hides the middle of a secret for logging.
pub fn mask_secret(value: &str) -> (res: String)
    ensures
        res@ == masked_secret(value@),
{
    let chars = trim_chars(value);
    if chars.len() == 0 {
        return String::new();
    }
    if chars.len() <= 6 {
        return to_owned_string(MASKED);
    }
    let mut res = string_from_range(&chars, 0, 3);
    push_str(&mut res, MASKED);
    let tail = string_from_range(&chars, chars.len() - 2, chars.len());
    push_str(&mut res, tail.as_str());
    res
}

/// Whether a lower-cased field name names a credential.
pub open spec fn sensitive_name(k: Seq<char>) -> bool {
    ||| k == "authorization"@
    ||| k == "clientid"@
    ||| k == "client_id"@
    ||| k == "client-id"@
    ||| k == "clientsecret"@
    ||| k == "client_secret"@
    ||| k == "client-secret"@
    ||| k == "code"@
    ||| k == "state"@
    ||| k == "token"@
    ||| k == "accesstoken"@
    ||| k == "access_token"@
    ||| k == "access-token"@
    ||| k == "refreshtoken"@
    ||| k == "refresh_token"@
    ||| k == "refresh-token"@
    ||| k == "streamkey"@
    ||| k == "stream_key"@
    ||| k == "stream-key"@
}

/// Whether a field name names a credential, ignoring ASCII case.
pub open spec fn sensitive_key(key: Seq<char>) -> bool {
    sensitive_name(ascii_lower_seq(key))
}

/// Whether a field name names a credential, ignoring ASCII case.
pub fn is_sensitive_key(key: &str) -> (b: bool)
    ensures
        b == sensitive_key(key@),
{
    let lower = ascii_lowercase(key);
    let k = lower.as_str();
    str_eq(k, "authorization") || str_eq(k, "clientid") || str_eq(k, "client_id") || str_eq(
        k,
        "client-id",
    ) || str_eq(k, "clientsecret") || str_eq(k, "client_secret") || str_eq(k, "client-secret")
        || str_eq(k, "code") || str_eq(k, "state") || str_eq(k, "token") || str_eq(
        k,
        "accesstoken",
    ) || str_eq(k, "access_token") || str_eq(k, "access-token") || str_eq(k, "refreshtoken")
        || str_eq(k, "refresh_token") || str_eq(k, "refresh-token") || str_eq(k, "streamkey")
        || str_eq(k, "stream_key") || str_eq(k, "stream-key")
}

// ---------------------------------------------------------------------------
// URL encoding
// ---------------------------------------------------------------------------

/// Bytes that URL encoding keeps as they are: ASCII letters, digits and
/// `-_.~`.
pub open spec fn is_unreserved(b: u8) -> bool {
    ||| 65 <= b <= 90
    ||| 97 <= b <= 122
    ||| 48 <= b <= 57
    ||| b == 45
    ||| b == 95
    ||| b == 46
    ||| b == 126
}

/// The encoding of one byte: itself, or `%` and two upper-case hex digits.
pub open spec fn encode_byte(b: u8) -> Seq<char> {
    if is_unreserved(b) {
        seq![b as char]
    } else {
        seq!['%'] + hex2_upper(b)
    }
}

/// Percent-encoding of a byte string.
pub open spec fn url_encode(bytes: Seq<u8>) -> Seq<char>
    decreases bytes.len(),
{
    if bytes.len() == 0 {
        Seq::empty()
    } else {
        url_encode(bytes.drop_last()) + encode_byte(bytes.last())
    }
}

/// Percent-encodes the UTF-8 bytes of `value`.
pub fn simple_url_encode(value: &str) -> (res: String)
    ensures
        res@ == url_encode(encode_utf8(value@)),
{
    let bytes = value.as_bytes();
    let mut res = String::new();
    let mut i: usize = 0;
    while i < bytes.len()
        invariant
            bytes@ == encode_utf8(value@),
            i <= bytes@.len(),
            res@ == url_encode(bytes@.subrange(0, i as int)),
        decreases bytes.len() - i,
    {
        let b = bytes[i];
        assert(bytes@.subrange(0, i + 1).drop_last() == bytes@.subrange(0, i as int));
        if (65 <= b && b <= 90) || (97 <= b && b <= 122) || (48 <= b && b <= 57) || b == 45 || b
            == 95 || b == 46 || b == 126 {
            push_char(&mut res, b as char);
        } else {
            push_char(&mut res, '%');
            push_hex2_upper(&mut res, b);
        }
        i += 1;
    }
    assert(bytes@.subrange(0, bytes@.len() as int) == bytes@);
    res
}

// ---------------------------------------------------------------------------
// Reading responses
// ---------------------------------------------------------------------------

/// `value.get(key)` as non-blank text, trimmed.
pub open spec fn string_field(v: JsonView, key: Seq<char>) -> Option<Seq<char>> {
    match field(v, key) {
        Some(JsonView::Str(s)) => if trim(s).len() > 0 {
            Some(trim(s))
        } else {
            None
        },
        _ => None,
    }
}

/// The view of an optional string.
pub open spec fn opt_view(o: Option<String>) -> Option<Seq<char>> {
    match o {
        Some(s) => Some(s@),
        None => None,
    }
}

/// The views of a vector of strings.
pub open spec fn strings_view(v: Seq<String>) -> Seq<Seq<char>> {
    v.map_values(|s: String| s@)
}

/// The trimmed, non-blank texts among `items`, in order; other items are
/// skipped.
pub open spec fn text_items(items: Seq<JsonView>) -> Seq<Seq<char>>
    decreases items.len(),
{
    if items.len() == 0 {
        Seq::empty()
    } else {
        let rest = text_items(items.drop_last());
        match items.last() {
            JsonView::Str(s) => if trim(s).len() > 0 {
                rest.push(trim(s))
            } else {
                rest
            },
            _ => rest,
        }
    }
}

/// `value.get(key)` as an array of its non-blank texts.
pub open spec fn string_array_field(v: JsonView, key: Seq<char>) -> Option<Seq<Seq<char>>> {
    match field(v, key) {
        Some(JsonView::Array(items)) => Some(text_items(items)),
        _ => None,
    }
}

/// The non-blank, trimmed text under `key`.
pub fn extract_string(value: &JsonValue, key: &str) -> (res: Option<String>)
    ensures
        opt_view(res) == string_field(value@, key@),
{
    match value.get(key) {
        Some(v) => match v.as_str() {
            Some(s) => {
                let t = trim_string(s.as_str());
                if is_blank(t.as_str()) {
                    proof {
                        lemma_trim_empty_iff_blank(t@);
                        lemma_trim_idempotent(s@);
                    }
                    None
                } else {
                    proof {
                        lemma_trim_empty_iff_blank(t@);
                        lemma_trim_idempotent(s@);
                    }
                    Some(t)
                }
            },
            None => None,
        },
        None => None,
    }
}

/// The non-blank, trimmed texts of the array under `key`.
pub fn extract_string_array(value: &JsonValue, key: &str) -> (res: Option<Vec<String>>)
    ensures
        res is Some <==> string_array_field(value@, key@) is Some,
        res matches Some(v) ==> Some(strings_view(v@)) == string_array_field(value@, key@),
{
    let field_value = value.get(key);
    if field_value.is_none() {
        return None;
    }
    let items = match field_value.unwrap().as_array() {
        Some(items) => items,
        None => return None,
    };
    let ghost item_views = items@.map_values(|x: JsonValue| x@);
    let mut res: Vec<String> = Vec::new();
    let mut i: usize = 0;
    while i < items.len()
        invariant
            i <= items.len(),
            item_views == items@.map_values(|x: JsonValue| x@),
            strings_view(res@) == text_items(item_views.subrange(0, i as int)),
        decreases items.len() - i,
    {
        assert(item_views.subrange(0, i + 1).drop_last() == item_views.subrange(0, i as int));
        assert(item_views.subrange(0, i + 1).last() == items@[i as int]@);
        match items[i].as_str() {
            Some(s) => {
                let t = trim_string(s.as_str());
                proof {
                    lemma_trim_empty_iff_blank(t@);
                    lemma_trim_idempotent(s@);
                }
                if !is_blank(t.as_str()) {
                    let ghost before = res@;
                    res.push(t);
                    assert(strings_view(res@) == strings_view(before).push(trim(s@)));
                }
            },
            None => {},
        }
        i += 1;
    }
    assert(item_views.subrange(0, items.len() as int) == item_views);
    Some(res)
}


/// The payload of a response: `content.data`, falling back to `content` and
/// then to the whole document where a level is missing.
pub open spec fn payload_of(root: JsonView) -> JsonView {
    field_or_self(field_or_self(root, "content"@), "data"@)
}

/// The payload of a response.
pub fn extract_payload(root: &JsonValue) -> (res: &JsonValue)
    ensures
        res@ == payload_of(root@),
{
    let content = match root.get("content") {
        Some(c) => c,
        None => root,
    };
    match content.get("data") {
        Some(d) => d,
        None => content,
    }
}

/// The `code` of a response, 200 where it has no integer code.
pub open spec fn response_code(root: JsonView) -> i64 {
    match field(root, "code"@) {
        Some(c) => match as_int(c) {
            Some(i) => i,
            None => 200,
        },
        None => 200,
    }
}

/// The `message` text of a response, `unknown error` where it has none.
pub open spec fn response_message(root: JsonView) -> Seq<char> {
    match field(root, "message"@) {
        Some(m) => match as_text(m) {
            Some(t) => t,
            None => "unknown error"@,
        },
        None => "unknown error"@,
    }
}

/// The message of a response whose code is not 200.
pub open spec fn api_code_message(root: JsonView) -> Seq<char> {
    "CHZZK API error: code="@ + decimal_int(response_code(root) as int) + ", message="@
        + response_message(root)
}

/// Accepts a response whose `code` is 200 or absent; any other code is an
/// error naming the code and the response's message.
pub fn validate_api_code(root: &JsonValue) -> (res: Result<(), ChzzkApiError>)
    ensures
        res is Ok <==> response_code(root@) == 200,
        res matches Err(e) ==> e.0@ == api_code_message(root@),
{
    let code = match root.get("code") {
        Some(c) => match c.as_i64() {
            Some(i) => i,
            None => 200,
        },
        None => 200,
    };
    if code == 200 {
        return Ok(());
    }
    let mut message = String::new();
    push_str(&mut message, "CHZZK API error: code=");
    push_decimal_i64(&mut message, code);
    push_str(&mut message, ", message=");
    match root.get("message") {
        Some(m) => match m.as_str() {
            Some(t) => push_str(&mut message, t.as_str()),
            None => push_str(&mut message, "unknown error"),
        },
        None => push_str(&mut message, "unknown error"),
    }
    Err(ChzzkApiError(message))
}

/// The first of the thumbnail fields that a live item carries.
pub open spec fn live_thumbnail(item: JsonView) -> Option<Seq<char>> {
    if string_field(item, "liveImageUrl"@) is Some {
        string_field(item, "liveImageUrl"@)
    } else if string_field(item, "defaultThumbnailImageUrl"@) is Some {
        string_field(item, "defaultThumbnailImageUrl"@)
    } else if string_field(item, "liveThumbnailImageURL"@) is Some {
        string_field(item, "liveThumbnailImageURL"@)
    } else if string_field(item, "liveThumbnailImageUrl"@) is Some {
        string_field(item, "liveThumbnailImageUrl"@)
    } else if string_field(item, "thumbnailImageUrl"@) is Some {
        string_field(item, "thumbnailImageUrl"@)
    } else if string_field(item, "thumbnail_image_url"@) is Some {
        string_field(item, "thumbnail_image_url"@)
    } else if string_field(item, "live_thumbnail_image_url"@) is Some {
        string_field(item, "live_thumbnail_image_url"@)
    } else if string_field(item, "live_image_url"@) is Some {
        string_field(item, "live_image_url"@)
    } else if string_field(item, "default_thumbnail_image_url"@) is Some {
        string_field(item, "default_thumbnail_image_url"@)
    } else {
        match field(item, "liveImage"@) {
            Some(image) => string_field(image, "url"@),
            None => None,
        }
    }
}

/// The thumbnail URL of a live item.
pub fn extract_live_item_thumbnail_url(item: &JsonValue) -> (res: Option<String>)
    ensures
        opt_view(res) == live_thumbnail(item@),
{
    let r = extract_string(item, "liveImageUrl");
    if r.is_some() {
        return r;
    }
    let r = extract_string(item, "defaultThumbnailImageUrl");
    if r.is_some() {
        return r;
    }
    let r = extract_string(item, "liveThumbnailImageURL");
    if r.is_some() {
        return r;
    }
    let r = extract_string(item, "liveThumbnailImageUrl");
    if r.is_some() {
        return r;
    }
    let r = extract_string(item, "thumbnailImageUrl");
    if r.is_some() {
        return r;
    }
    let r = extract_string(item, "thumbnail_image_url");
    if r.is_some() {
        return r;
    }
    let r = extract_string(item, "live_thumbnail_image_url");
    if r.is_some() {
        return r;
    }
    let r = extract_string(item, "live_image_url");
    if r.is_some() {
        return r;
    }
    let r = extract_string(item, "default_thumbnail_image_url");
    if r.is_some() {
        return r;
    }
    match item.get("liveImage") {
        Some(image) => extract_string(image, "url"),
        None => None,
    }
}

/// The access token of a token response: `accessToken`, else `access_token`.
pub open spec fn access_token_of(root: JsonView) -> Option<Seq<char>> {
    let p = payload_of(root);
    if string_field(p, "accessToken"@) is Some {
        string_field(p, "accessToken"@)
    } else {
        string_field(p, "access_token"@)
    }
}

/// The access token of a token response. `rendered_root` is the response as
/// JSON text, quoted in the error.
pub fn extract_access_token(root: &JsonValue, rendered_root: &str) -> (res: Result<
    String,
    ChzzkApiError,
>)
    ensures
        res is Ok <==> access_token_of(root@) is Some,
        res matches Ok(t) ==> access_token_of(root@) == Some(t@),
        res matches Err(e) ==> e.0@ == "CHZZK token response missing accessToken: "@
            + rendered_root@,
{
    let payload = extract_payload(root);
    match extract_string(payload, "accessToken") {
        Some(t) => Ok(t),
        None => match extract_string(payload, "access_token") {
            Some(t) => Ok(t),
            None => {
                let mut m = String::new();
                push_str(&mut m, "CHZZK token response missing accessToken: ");
                push_str(&mut m, rendered_root);
                Err(ChzzkApiError(m))
            },
        },
    }
}

/// The detail of an HTTP error body: its `message` text where the body is a
/// JSON document that has one, else the body itself. `parsed` is the body
/// decoded as JSON, `None` where it is not JSON.
pub open spec fn error_detail(raw_body: Seq<char>, parsed: Option<JsonView>) -> Seq<char> {
    match parsed {
        Some(v) => match field(v, "message"@) {
            Some(m) => match as_text(m) {
                Some(t) => t,
                None => raw_body,
            },
            None => raw_body,
        },
        None => raw_body,
    }
}

/// The detail of an HTTP error body.
pub fn extract_error_detail(raw_body: &str, parsed: &Option<JsonValue>) -> (res: String)
    ensures
        res@ == error_detail(
            raw_body@,
            match parsed {
                Some(v) => Some(v@),
                None => None,
            },
        ),
{
    match parsed {
        Some(v) => match v.get("message") {
            Some(m) => match m.as_str() {
                Some(t) => to_owned_string(t.as_str()),
                None => to_owned_string(raw_body),
            },
            None => to_owned_string(raw_body),
        },
        None => to_owned_string(raw_body),
    }
}

/// How an HTTP exchange failed.
pub enum ApiFailure {
    /// The server answered with an error status; `parsed_body` is the body
    /// decoded as JSON where it is JSON.
    Status { status: u16, body: String, parsed_body: Option<JsonValue> },
    /// The exchange failed before a status arrived; the failure's description.
    Transport(String),
}

/// The error for a failed exchange: `context (status): detail` for an error
/// status, `context: description` otherwise.
pub fn to_api_error(failure: &ApiFailure, context: &str) -> (e: ChzzkApiError)
    ensures
        match failure {
            ApiFailure::Status { status, body, parsed_body } => e.0@ == context@ + " ("@ + decimal(
                *status as nat,
            ) + "): "@ + error_detail(
                body@,
                match parsed_body {
                    Some(v) => Some(v@),
                    None => None,
                },
            ),
            ApiFailure::Transport(message) => e.0@ == context@ + ": "@ + message@,
        },
{
    let mut m = String::new();
    push_str(&mut m, context);
    match failure {
        ApiFailure::Status { status, body, parsed_body } => {
            push_str(&mut m, " (");
            push_decimal(&mut m, *status as u64);
            push_str(&mut m, "): ");
            let detail = extract_error_detail(body.as_str(), parsed_body);
            push_str(&mut m, detail.as_str());
        },
        ApiFailure::Transport(message) => {
            push_str(&mut m, ": ");
            push_str(&mut m, message.as_str());
        },
    }
    ChzzkApiError(m)
}


// ---------------------------------------------------------------------------
// Requests
// ---------------------------------------------------------------------------

/// HTTP methods that the API uses.
#[derive(PartialEq, Eq, Structural)]
pub enum HttpMethod {
    Get,
    Post,
    Patch,
}

/// One HTTP exchange to perform: method, URL, headers in order, and the JSON
/// body where there is one.
pub struct ApiRequest {
    pub method: HttpMethod,
    pub url: String,
    pub headers: Vec<(String, String)>,
    pub body: Option<JsonValue>,
}

/// The mathematical form of a request.
pub struct ApiRequestView {
    pub method: HttpMethod,
    pub url: Seq<char>,
    pub headers: Seq<(Seq<char>, Seq<char>)>,
    pub body: Option<JsonView>,
}

/// The views of header pairs.
pub open spec fn headers_view(h: Seq<(String, String)>) -> Seq<(Seq<char>, Seq<char>)> {
    h.map_values(|p: (String, String)| (p.0@, p.1@))
}

impl View for ApiRequest {
    type V = ApiRequestView;

    open spec fn view(&self) -> ApiRequestView {
        ApiRequestView {
            method: self.method,
            url: self.url@,
            headers: headers_view(self.headers@),
            body: match self.body {
                Some(b) => Some(b@),
                None => None,
            },
        }
    }
}

/// The `Content-Type: application/json` header.
pub open spec fn json_content_type() -> (Seq<char>, Seq<char>) {
    ("Content-Type"@, "application/json"@)
}

/// A bearer authorization header.
pub open spec fn bearer(token: Seq<char>) -> (Seq<char>, Seq<char>) {
    ("Authorization"@, "Bearer "@ + token)
}

/// A request without a body.
pub open spec fn get_request(url: Seq<char>, headers: Seq<(Seq<char>, Seq<char>)>) -> ApiRequestView {
    ApiRequestView { method: HttpMethod::Get, url, headers, body: None }
}

/// A JSON POST request.
pub open spec fn post_request(url: Seq<char>, body: JsonView) -> ApiRequestView {
    ApiRequestView {
        method: HttpMethod::Post,
        url,
        headers: seq![json_content_type()],
        body: Some(body),
    }
}

fn header(name: &str, value: &str) -> (h: (String, String))
    ensures
        h.0@ == name@,
        h.1@ == value@,
{
    (to_owned_string(name), to_owned_string(value))
}

fn bearer_header(token: &str) -> (h: (String, String))
    ensures
        (h.0@, h.1@) == bearer(token@),
{
    let mut v = String::new();
    push_str(&mut v, "Bearer ");
    push_str(&mut v, token);
    (to_owned_string("Authorization"), v)
}

fn text_value(s: &str) -> (v: JsonValue)
    ensures
        v@ == JsonView::Str(s@),
{
    JsonValue::Str(to_owned_string(s))
}

/// An object of text members, in order.
pub open spec fn text_object(members: Seq<(Seq<char>, Seq<char>)>) -> JsonView {
    JsonView::Object(members.map_values(|m: (Seq<char>, Seq<char>)| (m.0, JsonView::Str(m.1))))
}

/// An object from members whose values are all texts.
fn object_of_texts(members: &Vec<(String, String)>) -> (v: JsonValue)
    ensures
        v@ == text_object(headers_view(members@)),
{
    let mut entries: Vec<(String, JsonValue)> = Vec::new();
    let mut i: usize = 0;
    while i < members.len()
        invariant
            i <= members.len(),
            entries@.len() == i,
            forall|j: int|
                0 <= j < i ==> (#[trigger] entries@[j]).0@ == members@[j].0@ && entries@[j].1@
                    == JsonView::Str(members@[j].1@),
        decreases members.len() - i,
    {
        let name = to_owned_string(members[i].0.as_str());
        let value = text_value(members[i].1.as_str());
        entries.push((name, value));
        i += 1;
    }
    proof {
        lemma_entries_view(entries@);
    }
    let v = JsonValue::Object(entries);
    assert(entries_view(entries@) =~= headers_view(members@).map_values(
        |m: (Seq<char>, Seq<char>)| (m.0, JsonView::Str(m.1)),
    ));
    v
}

/// `s` without its trailing `/` characters.
pub open spec fn strip_trailing_slashes(s: Seq<char>) -> Seq<char>
    decreases s.len(),
{
    if s.len() > 0 && s.last() == '/' {
        strip_trailing_slashes(s.drop_last())
    } else {
        s
    }
}

/// The API base URL to use for a configured value: the trimmed value without
/// trailing slashes, or the default base where the value is blank.
pub open spec fn normalized_api_base(configured: Seq<char>) -> Seq<char> {
    if blank(configured) {
        DEFAULT_API_BASE@
    } else {
        strip_trailing_slashes(trim(configured))
    }
}

/// The state part of an authorization URI.
pub open spec fn state_query(state: Option<Seq<char>>) -> Seq<char> {
    match state {
        Some(s) => if blank(s) {
            Seq::empty()
        } else {
            "&state="@ + url_encode(encode_utf8(trim(s)))
        },
        None => Seq::empty(),
    }
}

/// The URI of the CHZZK account-link page.
pub open spec fn authorization_uri(
    auth_base: Seq<char>,
    client_id: Seq<char>,
    redirect_uri: Seq<char>,
    state: Option<Seq<char>>,
) -> Seq<char> {
    auth_base + "/account-interlock?responseType=code&clientId="@ + url_encode(
        encode_utf8(trim(client_id)),
    ) + "&redirectUri="@ + url_encode(encode_utf8(trim(redirect_uri))) + state_query(state)
}

/// The view of an optional string slice.
pub open spec fn opt_str_view(o: Option<&str>) -> Option<Seq<char>> {
    match o {
        Some(s) => Some(s@),
        None => None,
    }
}

/// The size of a category search page: 20 by default, kept within 1..=50.
pub open spec fn search_page_size(size: Option<u32>) -> u32 {
    let n = match size {
        Some(n) => n,
        None => 20u32,
    };
    if n < 1 {
        1
    } else if n > 50 {
        50
    } else {
        n
    }
}

/// The endpoint of a category search.
pub open spec fn category_search_url(api_base: Seq<char>, query: Seq<char>, size: Option<u32>) -> Seq<
    char,
> {
    api_base + "/open/v1/categories/search?query="@ + url_encode(encode_utf8(trim(query)))
        + "&size="@ + decimal(search_page_size(size) as nat)
}

/// The body of a live-settings update, member by member in request order.
pub open spec fn update_title_members(update_title: Option<Seq<char>>) -> Seq<(Seq<char>, JsonView)> {
    match update_title {
        Some(t) => seq![("defaultLiveTitle"@, JsonView::Str(trim(t)))],
        None => Seq::empty(),
    }
}

/// The category-type member of an update.
pub open spec fn update_type_members(category_type: Option<Seq<char>>) -> Seq<(Seq<char>, JsonView)> {
    match category_type {
        Some(t) => if blank(t) {
            Seq::empty()
        } else {
            seq![("categoryType"@, JsonView::Str(trim(t)))]
        },
        None => Seq::empty(),
    }
}

/// The category-id member of an update; a blank id is sent as the empty
/// text.
pub open spec fn update_id_members(category_id: Option<Seq<char>>) -> Seq<(Seq<char>, JsonView)> {
    match category_id {
        Some(t) => seq![("categoryId"@, JsonView::Str(trim(t)))],
        None => Seq::empty(),
    }
}

/// The trimmed, non-blank tags, in order.
pub open spec fn kept_tags(tags: Seq<Seq<char>>) -> Seq<Seq<char>>
    decreases tags.len(),
{
    if tags.len() == 0 {
        Seq::empty()
    } else if blank(tags.last()) {
        kept_tags(tags.drop_last())
    } else {
        kept_tags(tags.drop_last()).push(trim(tags.last()))
    }
}

/// The tags member of an update.
pub open spec fn update_tag_members(tags: Option<Seq<Seq<char>>>) -> Seq<(Seq<char>, JsonView)> {
    match tags {
        Some(t) => seq![
            ("tags"@, JsonView::Array(kept_tags(t).map_values(|x: Seq<char>| JsonView::Str(x)))),
        ],
        None => Seq::empty(),
    }
}

/// The view of optional strings.
pub open spec fn opt_strings_view(o: Option<Vec<String>>) -> Option<Seq<Seq<char>>> {
    match o {
        Some(v) => Some(strings_view(v@)),
        None => None,
    }
}

/// The members of the body of an update.
pub open spec fn update_members(u: &ChzzkLiveSettingUpdate) -> Seq<(Seq<char>, JsonView)> {
    update_title_members(opt_view(u.default_live_title)) + update_type_members(
        opt_view(u.category_type),
    ) + update_id_members(opt_view(u.category_id)) + update_tag_members(opt_strings_view(u.tags))
}

/// The error of a live-settings update, in the order the checks run; `None`
/// where the update is sent.
pub open spec fn update_error(access_token: Seq<char>, u: &ChzzkLiveSettingUpdate) -> Option<Seq<char>> {
    if blank(access_token) {
        Some("access_token is required"@)
    } else if u.is_empty_spec() {
        Some("live setting update payload is empty"@)
    } else if u.default_live_title matches Some(t) && blank(t@) {
        Some("default_live_title cannot be empty when provided"@)
    } else if update_members(u).len() == 0 {
        Some("live setting update payload has no valid fields"@)
    } else {
        None
    }
}

/// Whether an update's title, where it carries one, is not blank.
pub open spec fn title_not_blank(u: &ChzzkLiveSettingUpdate) -> bool {
    match u.default_live_title {
        Some(t) => !blank(t@),
        None => true,
    }
}

/// An update that carries a category id, blank or not, is sent with a valid
/// token, and its body holds the id, trimmed, as `categoryId`: an empty id
/// is how the category is cleared.
pub proof fn lemma_update_sends_category_id(access_token: Seq<char>, u: &ChzzkLiveSettingUpdate)
    ensures
        !blank(access_token) && title_not_blank(u) && (u.category_id matches Some(t))
            ==> update_error(access_token, u) is None && lookup(update_members(u), "categoryId"@)
            == Some(JsonView::Str(trim(u.category_id->0@))),
{
    reveal_strlit("defaultLiveTitle");
    reveal_strlit("categoryType");
    reveal_strlit("categoryId");
    if !blank(access_token) && title_not_blank(u) && (u.category_id matches Some(t)) {
        let t = u.category_id->0@;
        let title = update_title_members(opt_view(u.default_live_title));
        let ty = update_type_members(opt_view(u.category_type));
        let m = update_members(u);
        let i: int = (title.len() + ty.len()) as int;
        assert(m == title + ty + seq![("categoryId"@, JsonView::Str(trim(t)))] + update_tag_members(
            opt_strings_view(u.tags),
        ));
        assert(m[i] == ("categoryId"@, JsonView::Str(trim(t))));
        assert forall|j: int| 0 <= j < i implies m[j].0 != "categoryId"@ by {
            if j < title.len() {
                assert(m[j] == title[j]);
                assert(title[j].0.len() != "categoryId"@.len());
            } else {
                assert(m[j] == ty[j - title.len()]);
                assert(ty[j - title.len()].0.len() != "categoryId"@.len());
            }
        }
        lemma_lookup_at(m, "categoryId"@, i);
    }
}

/// The tags an update sends: the non-blank ones, trimmed, in order.
pub proof fn lemma_kept_tags_are_the_non_blank_ones(tags: Seq<Seq<char>>)
    ensures
        kept_tags(tags) == tags.filter(|x: Seq<char>| !blank(x)).map_values(|x: Seq<char>| trim(x)),
    decreases tags.len(),
{
    let pred = |x: Seq<char>| !blank(x);
    let f = |x: Seq<char>| trim(x);
    reveal(Seq::filter);
    if tags.len() == 0 {
        assert(tags.filter(pred).map_values(f) =~= Seq::<Seq<char>>::empty());
    } else {
        lemma_kept_tags_are_the_non_blank_ones(tags.drop_last());
        let before = tags.drop_last().filter(pred);
        if pred(tags.last()) {
            assert(tags.filter(pred) == before.push(tags.last()));
            assert(before.push(tags.last()).map_values(f) =~= before.map_values(f).push(f(tags.last())));
        } else {
            assert(tags.filter(pred) == before);
        }
    }
}

/// A member looked up past members of other names.
proof fn lemma_lookup_past(a: Seq<(Seq<char>, JsonView)>, b: Seq<(Seq<char>, JsonView)>, key: Seq<char>)
    requires
        forall|j: int| 0 <= j < a.len() ==> (#[trigger] a[j]).0.len() != key.len(),
    ensures
        lookup(a + b, key) == lookup(b, key),
    decreases a.len(),
{
    if a.len() > 0 {
        assert((a + b)[0] == a[0]);
        assert((a + b).drop_first() == a.drop_first() + b);
        assert forall|j: int| 0 <= j < a.drop_first().len() implies (#[trigger] a.drop_first()[j]).0.len()
            != key.len() by {
            assert(a.drop_first()[j] == a[j + 1]);
        }
        lemma_lookup_past(a.drop_first(), b, key);
    }
}

/// Every field of an update that is sent reaches the body under its name:
/// the title and the category id trimmed (an empty id clears the
/// category), the category type trimmed where it is not blank (a blank one
/// is left out), and the non-blank tags trimmed, in order (an empty list
/// clears the tags); a field left unset is not in the body.
pub proof fn lemma_update_body_fields(u: &ChzzkLiveSettingUpdate)
    ensures
        lookup(update_members(u), "defaultLiveTitle"@) == match opt_view(u.default_live_title) {
            Some(t) => Some(JsonView::Str(trim(t))),
            None => None::<JsonView>,
        },
        lookup(update_members(u), "categoryType"@) == match opt_view(u.category_type) {
            Some(t) => if blank(t) {
                None::<JsonView>
            } else {
                Some(JsonView::Str(trim(t)))
            },
            None => None::<JsonView>,
        },
        lookup(update_members(u), "categoryId"@) == match opt_view(u.category_id) {
            Some(t) => Some(JsonView::Str(trim(t))),
            None => None::<JsonView>,
        },
        lookup(update_members(u), "tags"@) == match opt_strings_view(u.tags) {
            Some(ts) => Some(
                JsonView::Array(
                    ts.filter(|x: Seq<char>| !blank(x)).map_values(|x: Seq<char>| trim(x)).map_values(
                        |x: Seq<char>| JsonView::Str(x),
                    ),
                ),
            ),
            None => None::<JsonView>,
        },
{
    reveal_strlit("defaultLiveTitle");
    reveal_strlit("categoryType");
    reveal_strlit("categoryId");
    reveal_strlit("tags");
    let ti = update_title_members(opt_view(u.default_live_title));
    let ty = update_type_members(opt_view(u.category_type));
    let id = update_id_members(opt_view(u.category_id));
    let tg = update_tag_members(opt_strings_view(u.tags));
    let e = Seq::<(Seq<char>, JsonView)>::empty();
    assert(update_members(u) == ti + ty + id + tg);
    assert(ti + ty + id + tg == ti + (ty + (id + (tg + e))));
    assert(lookup(e, "tags"@) is None);
    // Each piece holds at most the member of its own name.
    lemma_lookup_past(ti, ty + (id + (tg + e)), "categoryType"@);
    lemma_lookup_past(ti, ty + (id + (tg + e)), "categoryId"@);
    lemma_lookup_past(ti, ty + (id + (tg + e)), "tags"@);
    lemma_lookup_past(ty, id + (tg + e), "categoryId"@);
    lemma_lookup_past(ty, id + (tg + e), "tags"@);
    lemma_lookup_past(id, tg + e, "tags"@);
    lemma_lookup_past(ty, id + (tg + e), "defaultLiveTitle"@);
    lemma_lookup_past(id, tg + e, "defaultLiveTitle"@);
    lemma_lookup_past(tg, e, "defaultLiveTitle"@);
    lemma_lookup_past(id, tg + e, "categoryType"@);
    lemma_lookup_past(tg, e, "categoryType"@);
    lemma_lookup_past(tg, e, "categoryId"@);
    assert(tg + e == tg);
    if ti.len() == 0 {
        assert(ti + (ty + (id + (tg + e))) == ty + (id + (tg + e)));
    }
    if ty.len() == 0 {
        assert(ty + (id + (tg + e)) == id + (tg + e));
    }
    if id.len() == 0 {
        assert(id + (tg + e) == tg + e);
    }
    if tg.len() == 0 {
        assert(tg + e == e);
    }
    match opt_strings_view(u.tags) {
        Some(ts) => lemma_kept_tags_are_the_non_blank_ones(ts),
        None => {},
    }
}

/// An update that only clears the category is sent as exactly
/// `{"categoryId":""}`.
pub proof fn lemma_clear_category_update(access_token: Seq<char>, u: &ChzzkLiveSettingUpdate)
    requires
        !blank(access_token),
        u.default_live_title is None,
        u.category_type is None,
        u.tags is None,
        u.category_id matches Some(t) && blank(t@),
    ensures
        update_error(access_token, u) is None,
        update_members(u) == seq![("categoryId"@, JsonView::Str(Seq::empty()))],
{
    let t = u.category_id->0@;
    crate::text::lemma_trim_empty_iff_blank(t);
    assert(trim(t) =~= Seq::<char>::empty());
    assert(update_members(u) =~= seq![("categoryId"@, JsonView::Str(trim(t)))]);
}

/// A JSON value of the text `s.trim()`.
fn trimmed_text_value(s: &str) -> (v: JsonValue)
    ensures
        v@ == JsonView::Str(trim(s@)),
{
    JsonValue::Str(trim_string(s))
}

fn append_entry(entries: &mut Vec<(String, JsonValue)>, name: &str, value: JsonValue)
    ensures
        final(entries)@.len() == old(entries)@.len() + 1,
        forall|j: int|
            0 <= j < old(entries)@.len() ==> #[trigger] final(entries)@[j] == old(entries)@[j],
        final(entries)@.last().0@ == name@,
        final(entries)@.last().1@ == value@,
{
    entries.push((to_owned_string(name), value));
}

impl ChzzkClient {
    /// A client for the API at `api_base`; a blank base selects the default.
    pub fn new(api_base: &str) -> (c: Self)
        ensures
            c.api_base@ == normalized_api_base(api_base@),
            c.auth_base@ == DEFAULT_AUTH_BASE@,
    {
        let base = if is_blank(api_base) {
            to_owned_string(DEFAULT_API_BASE)
        } else {
            let v = trim_chars(api_base);
            let mut end = v.len();
            assert(v@.subrange(0, end as int) == v@);
            while end > 0 && v[end - 1] == '/'
                invariant
                    end <= v.len(),
                    strip_trailing_slashes(v@) == strip_trailing_slashes(v@.subrange(0, end as int)),
                decreases end,
            {
                assert(v@.subrange(0, end as int).drop_last() == v@.subrange(0, end - 1));
                end -= 1;
            }
            string_from_range(&v, 0, end)
        };
        ChzzkClient { api_base: base, auth_base: to_owned_string(DEFAULT_AUTH_BASE) }
    }

    /// The account-link page URI for `client_id`, returning to
    /// `redirect_uri`, with `state` where one is given and not blank.
    pub fn generate_authorization_uri(
        &self,
        client_id: &str,
        redirect_uri: &str,
        state: Option<&str>,
    ) -> (res: Result<String, ChzzkApiError>)
        ensures
            blank(client_id@) ==> (res matches Err(e) && e.0@ == "client_id is required"@),
            !blank(client_id@) && blank(redirect_uri@) ==> (res matches Err(e) && e.0@
                == "redirect_uri is required"@),
            !blank(client_id@) && !blank(redirect_uri@) ==> (res matches Ok(u) && u@
                == authorization_uri(self.auth_base@, client_id@, redirect_uri@, opt_str_view(state))),
    {
        if is_blank(client_id) {
            return Err(api_error("client_id is required"));
        }
        if is_blank(redirect_uri) {
            return Err(api_error("redirect_uri is required"));
        }
        let client_id = trim_string(client_id);
        let redirect_uri = trim_string(redirect_uri);
        let mut uri = String::new();
        push_str(&mut uri, self.auth_base.as_str());
        push_str(&mut uri, "/account-interlock?responseType=code&clientId=");
        let enc = simple_url_encode(client_id.as_str());
        push_str(&mut uri, enc.as_str());
        push_str(&mut uri, "&redirectUri=");
        let enc = simple_url_encode(redirect_uri.as_str());
        push_str(&mut uri, enc.as_str());
        match state {
            Some(s) => {
                if !is_blank(s) {
                    let t = trim_string(s);
                    push_str(&mut uri, "&state=");
                    let enc = simple_url_encode(t.as_str());
                    push_str(&mut uri, enc.as_str());
                }
            },
            None => {},
        }
        Ok(uri)
    }

    /// A JSON POST of `body` to `endpoint`.
    pub fn post_json(&self, endpoint: String, body: JsonValue) -> (req: ApiRequest)
        ensures
            req@ == post_request(endpoint@, body@),
    {
        let mut headers: Vec<(String, String)> = Vec::new();
        headers.push(header("Content-Type", "application/json"));
        let req = ApiRequest { method: HttpMethod::Post, url: endpoint, headers, body: Some(body) };
        assert(headers_view(req.headers@) =~= seq![json_content_type()]);
        req
    }

    /// The token request that exchanges an authorization code; the
    /// response's access token is read by [`extract_access_token`].
    pub fn exchange_authorization_code(
        &self,
        client_id: &str,
        client_secret: &str,
        authorization_code: &str,
        state: &str,
    ) -> (res: Result<ApiRequest, ChzzkApiError>)
        ensures
            blank(client_id@) ==> (res matches Err(e) && e.0@ == "client_id is required"@),
            !blank(client_id@) && blank(client_secret@) ==> (res matches Err(e) && e.0@
                == "client_secret is required"@),
            !blank(client_id@) && !blank(client_secret@) && blank(authorization_code@)
                ==> (res matches Err(e) && e.0@ == "authorization_code is required"@),
            !blank(client_id@) && !blank(client_secret@) && !blank(authorization_code@) && blank(
                state@,
            ) ==> (res matches Err(e) && e.0@ == "state is required"@),
            !blank(client_id@) && !blank(client_secret@) && !blank(authorization_code@) && !blank(
                state@,
            ) ==> (res matches Ok(req) && req@ == post_request(
                self.api_base@ + "/auth/v1/token"@,
                text_object(
                    seq![
                        ("grantType"@, "authorization_code"@),
                        ("clientId"@, trim(client_id@)),
                        ("clientSecret"@, trim(client_secret@)),
                        ("code"@, trim(authorization_code@)),
                        ("state"@, trim(state@)),
                    ],
                ),
            )),
    {
        if is_blank(client_id) {
            return Err(api_error("client_id is required"));
        }
        if is_blank(client_secret) {
            return Err(api_error("client_secret is required"));
        }
        if is_blank(authorization_code) {
            return Err(api_error("authorization_code is required"));
        }
        if is_blank(state) {
            return Err(api_error("state is required"));
        }
        let mut endpoint = String::new();
        push_str(&mut endpoint, self.api_base.as_str());
        push_str(&mut endpoint, "/auth/v1/token");
        let mut members: Vec<(String, String)> = Vec::new();
        members.push(header("grantType", "authorization_code"));
        members.push((to_owned_string("clientId"), trim_string(client_id)));
        members.push((to_owned_string("clientSecret"), trim_string(client_secret)));
        members.push((to_owned_string("code"), trim_string(authorization_code)));
        members.push((to_owned_string("state"), trim_string(state)));
        assert(headers_view(members@) =~= seq![
            ("grantType"@, "authorization_code"@),
            ("clientId"@, trim(client_id@)),
            ("clientSecret"@, trim(client_secret@)),
            ("code"@, trim(authorization_code@)),
            ("state"@, trim(state@)),
        ]);
        let body = object_of_texts(&members);
        Ok(self.post_json(endpoint, body))
    }

    /// The request that revokes `token`.
    pub fn revoke_token(&self, client_id: &str, client_secret: &str, token: &str) -> (res: Result<
        ApiRequest,
        ChzzkApiError,
    >)
        ensures
            blank(client_id@) ==> (res matches Err(e) && e.0@ == "client_id is required"@),
            !blank(client_id@) && blank(client_secret@) ==> (res matches Err(e) && e.0@
                == "client_secret is required"@),
            !blank(client_id@) && !blank(client_secret@) && blank(token@) ==> (res matches Err(e)
                && e.0@ == "token is required"@),
            !blank(client_id@) && !blank(client_secret@) && !blank(token@) ==> (res matches Ok(req)
                && req@ == post_request(
                self.api_base@ + "/auth/v1/token/revoke"@,
                text_object(
                    seq![
                        ("clientId"@, trim(client_id@)),
                        ("clientSecret"@, trim(client_secret@)),
                        ("token"@, trim(token@)),
                    ],
                ),
            )),
    {
        if is_blank(client_id) {
            return Err(api_error("client_id is required"));
        }
        if is_blank(client_secret) {
            return Err(api_error("client_secret is required"));
        }
        if is_blank(token) {
            return Err(api_error("token is required"));
        }
        let mut endpoint = String::new();
        push_str(&mut endpoint, self.api_base.as_str());
        push_str(&mut endpoint, "/auth/v1/token/revoke");
        let mut members: Vec<(String, String)> = Vec::new();
        members.push((to_owned_string("clientId"), trim_string(client_id)));
        members.push((to_owned_string("clientSecret"), trim_string(client_secret)));
        members.push((to_owned_string("token"), trim_string(token)));
        assert(headers_view(members@) =~= seq![
            ("clientId"@, trim(client_id@)),
            ("clientSecret"@, trim(client_secret@)),
            ("token"@, trim(token@)),
        ]);
        let body = object_of_texts(&members);
        Ok(self.post_json(endpoint, body))
    }

    /// The request for the live settings; their reading is
    /// [`live_settings_from_response`].
    pub fn fetch_live_settings(&self, access_token: &str) -> (req: ApiRequest)
        ensures
            req@ == get_request(
                self.api_base@ + "/open/v1/lives/setting"@,
                seq![bearer(access_token@), json_content_type()],
            ),
    {
        let mut url = String::new();
        push_str(&mut url, self.api_base.as_str());
        push_str(&mut url, "/open/v1/lives/setting");
        let mut headers: Vec<(String, String)> = Vec::new();
        headers.push(bearer_header(access_token));
        headers.push(header("Content-Type", "application/json"));
        let req = ApiRequest { method: HttpMethod::Get, url, headers, body: None };
        assert(headers_view(req.headers@) =~= seq![bearer(access_token@), json_content_type()]);
        req
    }

    /// The request for the stream key; its reading is
    /// [`stream_key_from_response`].
    pub fn fetch_stream_key(&self, access_token: &str) -> (res: Result<ApiRequest, ChzzkApiError>)
        ensures
            blank(access_token@) ==> (res matches Err(e) && e.0@ == "access_token is required"@),
            !blank(access_token@) ==> (res matches Ok(req) && req@ == get_request(
                self.api_base@ + "/open/v1/streams/key"@,
                seq![bearer(trim(access_token@)), json_content_type()],
            )),
    {
        if is_blank(access_token) {
            return Err(api_error("access_token is required"));
        }
        let token = trim_string(access_token);
        let mut url = String::new();
        push_str(&mut url, self.api_base.as_str());
        push_str(&mut url, "/open/v1/streams/key");
        let mut headers: Vec<(String, String)> = Vec::new();
        headers.push(bearer_header(token.as_str()));
        headers.push(header("Content-Type", "application/json"));
        let req = ApiRequest { method: HttpMethod::Get, url, headers, body: None };
        assert(headers_view(req.headers@) =~= seq![bearer(trim(access_token@)), json_content_type()]);
        Ok(req)
    }

    /// The request for the signed-in user's channel; its reading is
    /// [`user_channel_info_from_response`].
    pub fn fetch_user_channel_info(&self, access_token: &str) -> (res: Result<
        ApiRequest,
        ChzzkApiError,
    >)
        ensures
            blank(access_token@) ==> (res matches Err(e) && e.0@ == "access_token is required"@),
            !blank(access_token@) ==> (res matches Ok(req) && req@ == get_request(
                self.api_base@ + "/open/v1/users/me"@,
                seq![bearer(trim(access_token@)), json_content_type()],
            )),
    {
        if is_blank(access_token) {
            return Err(api_error("access_token is required"));
        }
        let token = trim_string(access_token);
        let mut url = String::new();
        push_str(&mut url, self.api_base.as_str());
        push_str(&mut url, "/open/v1/users/me");
        let mut headers: Vec<(String, String)> = Vec::new();
        headers.push(bearer_header(token.as_str()));
        headers.push(header("Content-Type", "application/json"));
        let req = ApiRequest { method: HttpMethod::Get, url, headers, body: None };
        assert(headers_view(req.headers@) =~= seq![bearer(trim(access_token@)), json_content_type()]);
        Ok(req)
    }

    /// The request for the live details of a channel, which carry its live
    /// thumbnail; their reading is [`thumbnail_from_response`].
    pub fn fetch_live_thumbnail_image_url(&self, channel_id: Option<&str>) -> (res: Result<
        ApiRequest,
        ChzzkApiError,
    >)
        ensures
            match channel_id {
                Some(c) => !blank(c@),
                None => false,
            } ==> (res matches Ok(req) && req@ == get_request(
                DEFAULT_SERVICE_BASE@ + "/service/v2/channels/"@ + url_encode(
                    encode_utf8(trim(channel_id.unwrap()@)),
                ) + "/live-detail"@,
                seq![
                    ("User-Agent"@, DEFAULT_UNOFFICIAL_USER_AGENT@),
                    ("Accept"@, "application/json"@),
                    ("Referer"@, "https://chzzk.naver.com"@),
                ],
            )),
            !match channel_id {
                Some(c) => !blank(c@),
                None => false,
            } ==> (res matches Err(e) && e.0@ == "channel_id is required for unofficial live-detail"@),
    {
        let channel = match channel_id {
            Some(c) => {
                if is_blank(c) {
                    return Err(api_error("channel_id is required for unofficial live-detail"));
                }
                trim_string(c)
            },
            None => {
                return Err(api_error("channel_id is required for unofficial live-detail"));
            },
        };
        let mut url = String::new();
        push_str(&mut url, DEFAULT_SERVICE_BASE);
        push_str(&mut url, "/service/v2/channels/");
        let enc = simple_url_encode(channel.as_str());
        push_str(&mut url, enc.as_str());
        push_str(&mut url, "/live-detail");
        let mut headers: Vec<(String, String)> = Vec::new();
        headers.push(header("User-Agent", DEFAULT_UNOFFICIAL_USER_AGENT));
        headers.push(header("Accept", "application/json"));
        headers.push(header("Referer", "https://chzzk.naver.com"));
        let req = ApiRequest { method: HttpMethod::Get, url, headers, body: None };
        assert(headers_view(req.headers@) =~= seq![
            ("User-Agent"@, DEFAULT_UNOFFICIAL_USER_AGENT@),
            ("Accept"@, "application/json"@),
            ("Referer"@, "https://chzzk.naver.com"@),
        ]);
        Ok(req)
    }

    /// The category search request for `query`; its reading is
    /// [`categories_from_response`].
    pub fn search_categories(
        &self,
        client_id: &str,
        client_secret: &str,
        query: &str,
        size: Option<u32>,
    ) -> (res: Result<ApiRequest, ChzzkApiError>)
        ensures
            blank(client_id@) ==> (res matches Err(e) && e.0@ == "client_id is required"@),
            !blank(client_id@) && blank(client_secret@) ==> (res matches Err(e) && e.0@
                == "client_secret is required"@),
            !blank(client_id@) && !blank(client_secret@) && blank(query@) ==> (res matches Err(e)
                && e.0@ == "query is required"@),
            !blank(client_id@) && !blank(client_secret@) && !blank(query@) ==> (res matches Ok(req)
                && req@ == get_request(
                category_search_url(self.api_base@, query@, size),
                seq![
                    ("Client-Id"@, trim(client_id@)),
                    ("Client-Secret"@, trim(client_secret@)),
                    json_content_type(),
                ],
            )),
    {
        if is_blank(client_id) {
            return Err(api_error("client_id is required"));
        }
        if is_blank(client_secret) {
            return Err(api_error("client_secret is required"));
        }
        if is_blank(query) {
            return Err(api_error("query is required"));
        }
        let n: u32 = match size {
            Some(n) => n,
            None => 20,
        };
        let n: u32 = if n < 1 {
            1
        } else if n > 50 {
            50
        } else {
            n
        };
        let q = trim_string(query);
        let mut url = String::new();
        push_str(&mut url, self.api_base.as_str());
        push_str(&mut url, "/open/v1/categories/search?query=");
        let enc = simple_url_encode(q.as_str());
        push_str(&mut url, enc.as_str());
        push_str(&mut url, "&size=");
        push_decimal(&mut url, n as u64);
        let mut headers: Vec<(String, String)> = Vec::new();
        headers.push((to_owned_string("Client-Id"), trim_string(client_id)));
        headers.push((to_owned_string("Client-Secret"), trim_string(client_secret)));
        headers.push(header("Content-Type", "application/json"));
        let req = ApiRequest { method: HttpMethod::Get, url, headers, body: None };
        assert(headers_view(req.headers@) =~= seq![
            ("Client-Id"@, trim(client_id@)),
            ("Client-Secret"@, trim(client_secret@)),
            json_content_type(),
        ]);
        Ok(req)
    }

    /// The request that applies `update` to the live settings.
    pub fn update_live_settings(
        &self,
        access_token: &str,
        update: &ChzzkLiveSettingUpdate,
    ) -> (res: Result<ApiRequest, ChzzkApiError>)
        ensures
            update_error(access_token@, update) matches Some(m) ==> (res matches Err(e) && e.0@ == m),
            update_error(access_token@, update) is None ==> (res matches Ok(req) && req@ == (
            ApiRequestView {
                method: HttpMethod::Patch,
                url: self.api_base@ + "/open/v1/lives/setting"@,
                headers: seq![bearer(trim(access_token@)), json_content_type()],
                body: Some(JsonView::Object(update_members(update))),
            })),
            !blank(access_token@) && title_not_blank(update) ==> (update.category_id matches Some(t) ==> (
            res matches Ok(req) && req@.body matches Some(JsonView::Object(m)) && lookup(m, "categoryId"@)
                == Some(JsonView::Str(trim(t@))))),
    {
        proof {
            lemma_update_sends_category_id(access_token@, update);
        }
        if is_blank(access_token) {
            return Err(api_error("access_token is required"));
        }
        if update.is_empty() {
            return Err(api_error("live setting update payload is empty"));
        }
        let mut entries: Vec<(String, JsonValue)> = Vec::new();
        match &update.default_live_title {
            Some(title) => {
                if is_blank(title.as_str()) {
                    return Err(api_error("default_live_title cannot be empty when provided"));
                }
                append_entry(&mut entries, "defaultLiveTitle", trimmed_text_value(title.as_str()));
            },
            None => {},
        }
        proof {
            lemma_entries_view(entries@);
        }
        assert(entries_view(entries@) =~= update_title_members(opt_view(update.default_live_title)));
        let ghost after_title = entries@;
        match &update.category_type {
            Some(t) => {
                if !is_blank(t.as_str()) {
                    append_entry(&mut entries, "categoryType", trimmed_text_value(t.as_str()));
                }
            },
            None => {},
        }
        let ghost after_type = entries@;
        match &update.category_id {
            Some(t) => {
                append_entry(&mut entries, "categoryId", trimmed_text_value(t.as_str()));
            },
            None => {},
        }
        let ghost after_id = entries@;
        match &update.tags {
            Some(tags) => {
                let items = kept_tag_values(tags);
                append_entry(&mut entries, "tags", items);
            },
            None => {},
        }
        proof {
            lemma_entries_view(entries@);
            lemma_entries_view(after_title);
            lemma_entries_view(after_type);
            lemma_entries_view(after_id);
        }
        assert(entries_view(after_type) =~= entries_view(after_title) + update_type_members(
            opt_view(update.category_type),
        ));
        assert(entries_view(after_id) =~= entries_view(after_type) + update_id_members(
            opt_view(update.category_id),
        ));
        assert(entries_view(entries@) =~= entries_view(after_id) + update_tag_members(
            opt_strings_view(update.tags),
        ));
        assert(entries_view(entries@) =~= update_members(update));
        if entries.len() == 0 {
            return Err(api_error("live setting update payload has no valid fields"));
        }
        let token = trim_string(access_token);
        let mut url = String::new();
        push_str(&mut url, self.api_base.as_str());
        push_str(&mut url, "/open/v1/lives/setting");
        let mut headers: Vec<(String, String)> = Vec::new();
        headers.push(bearer_header(token.as_str()));
        headers.push(header("Content-Type", "application/json"));
        let req = ApiRequest {
            method: HttpMethod::Patch,
            url,
            headers,
            body: Some(JsonValue::Object(entries)),
        };
        assert(headers_view(req.headers@) =~= seq![bearer(trim(access_token@)), json_content_type()]);
        Ok(req)
    }
}

/// The array of the trimmed, non-blank tags.
fn kept_tag_values(tags: &Vec<String>) -> (v: JsonValue)
    ensures
        v@ == JsonView::Array(kept_tags(strings_view(tags@)).map_values(|x: Seq<char>| JsonView::Str(x))),
{
    let mut items: Vec<JsonValue> = Vec::new();
    let ghost tv = strings_view(tags@);
    let mut i: usize = 0;
    while i < tags.len()
        invariant
            i <= tags.len(),
            tv == strings_view(tags@),
            items_view(items@) == kept_tags(tv.subrange(0, i as int)).map_values(
                |x: Seq<char>| JsonView::Str(x),
            ),
        decreases tags.len() - i,
    {
        assert(tv.subrange(0, i + 1).drop_last() == tv.subrange(0, i as int));
        assert(tv.subrange(0, i + 1).last() == tags@[i as int]@);
        if !is_blank(tags[i].as_str()) {
            let ghost before = items@;
            items.push(trimmed_text_value(tags[i].as_str()));
            assert(items@.drop_last() == before);
            assert(items_view(items@) =~= kept_tags(tv.subrange(0, i + 1)).map_values(
                |x: Seq<char>| JsonView::Str(x),
            ));
        }
        i += 1;
    }
    assert(tv.subrange(0, tags.len() as int) == tv);
    JsonValue::Array(items)
}


// ---------------------------------------------------------------------------
// Responses
// ---------------------------------------------------------------------------

/// `a`, or `b` where `a` is absent.
pub open spec fn or_else<T>(a: Option<T>, b: Option<T>) -> Option<T> {
    if a is Some {
        a
    } else {
        b
    }
}

/// A text field of the optional `category` object.
pub open spec fn category_field(category: Option<JsonView>, key: Seq<char>) -> Option<Seq<char>> {
    match category {
        Some(c) => string_field(c, key),
        None => None,
    }
}

/// The live title of a live-settings payload.
pub open spec fn live_title_of(p: JsonView) -> Option<Seq<char>> {
    string_field(p, "defaultLiveTitle"@)
}

/// The category type: the category's own, else the payload's.
pub open spec fn live_category_type_of(p: JsonView) -> Option<Seq<char>> {
    or_else(category_field(field(p, "category"@), "categoryType"@), string_field(p, "categoryType"@))
}

/// The category id: the category's own, else the payload's `categoryId`,
/// else its `liveCategory`.
pub open spec fn live_category_id_of(p: JsonView) -> Option<Seq<char>> {
    or_else(
        or_else(category_field(field(p, "category"@), "categoryId"@), string_field(p, "categoryId"@)),
        string_field(p, "liveCategory"@),
    )
}

/// The category name: the category's `categoryValue`, else the payload's
/// `liveCategoryValue`.
pub open spec fn live_category_name_of(p: JsonView) -> Option<Seq<char>> {
    or_else(
        category_field(field(p, "category"@), "categoryValue"@),
        string_field(p, "liveCategoryValue"@),
    )
}

fn category_string(category: Option<&JsonValue>, key: &str) -> (res: Option<String>)
    ensures
        opt_view(res) == category_field(
            match category {
                Some(c) => Some(c@),
                None => None,
            },
            key@,
        ),
{
    match category {
        Some(c) => extract_string(c, key),
        None => None,
    }
}

/// The live settings of a live-settings response.
pub fn live_settings_from_response(root: &JsonValue) -> (res: Result<ChzzkLiveSettings, ChzzkApiError>)
    ensures
        res is Ok <==> response_code(root@) == 200,
        res matches Err(e) ==> e.0@ == api_code_message(root@),
        res matches Ok(s) ==> {
            let p = payload_of(root@);
            &&& opt_view(s.live_title) == live_title_of(p)
            &&& opt_view(s.category_type) == live_category_type_of(p)
            &&& opt_view(s.category_id) == live_category_id_of(p)
            &&& opt_view(s.category_name) == live_category_name_of(p)
            &&& opt_strings_view(s.tags) == string_array_field(p, "tags"@)
        },
{
    validate_api_code(root)?;
    let payload = extract_payload(root);
    let category = payload.get("category");
    let live_title = extract_string(payload, "defaultLiveTitle");
    let category_type = match category_string(category, "categoryType") {
        Some(t) => Some(t),
        None => extract_string(payload, "categoryType"),
    };
    let category_id = match category_string(category, "categoryId") {
        Some(t) => Some(t),
        None => match extract_string(payload, "categoryId") {
            Some(t) => Some(t),
            None => extract_string(payload, "liveCategory"),
        },
    };
    let category_name = match category_string(category, "categoryValue") {
        Some(t) => Some(t),
        None => extract_string(payload, "liveCategoryValue"),
    };
    let tags = extract_string_array(payload, "tags");
    Ok(ChzzkLiveSettings { live_title, category_type, category_id, category_name, tags })
}

/// The stream key of a stream-key response. `masked_rendering` is the
/// response as JSON text with its secrets masked, quoted in the error.
pub fn stream_key_from_response(root: &JsonValue, masked_rendering: &str) -> (res: Result<
    ChzzkStreamKey,
    ChzzkApiError,
>)
    ensures
        response_code(root@) != 200 ==> (res matches Err(e) && e.0@ == api_code_message(root@)),
        response_code(root@) == 200 ==> match string_field(payload_of(root@), "streamKey"@) {
            Some(k) => res matches Ok(key) && key.stream_key@ == k,
            None => res matches Err(e) && e.0@ == "CHZZK stream-key response missing streamKey: "@
                + masked_rendering@,
        },
{
    validate_api_code(root)?;
    let payload = extract_payload(root);
    match extract_string(payload, "streamKey") {
        Some(stream_key) => Ok(ChzzkStreamKey { stream_key }),
        None => {
            let mut m = String::new();
            push_str(&mut m, "CHZZK stream-key response missing streamKey: ");
            push_str(&mut m, masked_rendering);
            Err(ChzzkApiError(m))
        },
    }
}

/// The view of a category: type, id, name and poster URL.
pub open spec fn category_view(c: ChzzkCategory) -> (Seq<char>, Seq<char>, Seq<char>, Option<Seq<char>>) {
    (c.category_type@, c.category_id@, c.category_value@, opt_view(c.poster_image_url))
}

/// The categories listed by a search payload: the items that carry a type,
/// an id and a name, in order.
pub open spec fn categories_of(items: Seq<JsonView>) -> Seq<(Seq<char>, Seq<char>, Seq<char>, Option<Seq<char>>)>
    decreases items.len(),
{
    if items.len() == 0 {
        Seq::empty()
    } else {
        let rest = categories_of(items.drop_last());
        let item = items.last();
        match (
            string_field(item, "categoryType"@),
            string_field(item, "categoryId"@),
            string_field(item, "categoryValue"@),
        ) {
            (Some(t), Some(i), Some(v)) => rest.push((t, i, v, string_field(item, "posterImageUrl"@))),
            _ => rest,
        }
    }
}

/// Whether a search item names a category: it has a non-blank type, id
/// and name. Its poster does not matter.
pub open spec fn names_category(item: JsonView) -> bool {
    &&& string_field(item, "categoryType"@) is Some
    &&& string_field(item, "categoryId"@) is Some
    &&& string_field(item, "categoryValue"@) is Some
}

/// The category that a search item names, with its poster where it has
/// one.
pub open spec fn named_category(item: JsonView) -> (Seq<char>, Seq<char>, Seq<char>, Option<Seq<char>>) {
    (
        string_field(item, "categoryType"@)->0,
        string_field(item, "categoryId"@)->0,
        string_field(item, "categoryValue"@)->0,
        string_field(item, "posterImageUrl"@),
    )
}

/// A search lists exactly the items that name a category, each once and in
/// the payload's order, with or without a poster: none is dropped for
/// lacking one, and the count of results is the count of such items.
pub proof fn lemma_categories_are_the_named_items(items: Seq<JsonView>)
    ensures
        categories_of(items) == items.filter(|x: JsonView| names_category(x)).map_values(
            |x: JsonView| named_category(x),
        ),
        categories_of(items).len() == items.filter(|x: JsonView| names_category(x)).len(),
    decreases items.len(),
{
    let pred = |x: JsonView| names_category(x);
    let f = |x: JsonView| named_category(x);
    reveal(Seq::filter);
    if items.len() == 0 {
        assert(items.filter(pred) =~= Seq::<JsonView>::empty());
        assert(items.filter(pred).map_values(f) =~= Seq::empty());
    } else {
        lemma_categories_are_the_named_items(items.drop_last());
        let before = items.drop_last().filter(pred);
        if pred(items.last()) {
            assert(items.filter(pred) == before.push(items.last()));
            assert(before.push(items.last()).map_values(f) =~= before.map_values(f).push(f(items.last())));
        } else {
            assert(items.filter(pred) == before);
        }
    }
}

/// The categories of a search response. `rendered_root` is the response as
/// JSON text, quoted in the error.
pub fn categories_from_response(root: &JsonValue, rendered_root: &str) -> (res: Result<
    Vec<ChzzkCategory>,
    ChzzkApiError,
>)
    ensures
        response_code(root@) != 200 ==> (res matches Err(e) && e.0@ == api_code_message(root@)),
        response_code(root@) == 200 ==> match as_items(payload_of(root@)) {
            Some(items) => res matches Ok(v) && v@.map_values(|c: ChzzkCategory| category_view(c))
                == categories_of(items) && v@.map_values(|c: ChzzkCategory| category_view(c))
                == items.filter(|x: JsonView| names_category(x)).map_values(|x: JsonView| named_category(x)),
            None => res matches Err(e) && e.0@ == "CHZZK category response missing list: "@
                + rendered_root@,
        },
{
    validate_api_code(root)?;
    let payload = extract_payload(root);
    let items = match payload.as_array() {
        Some(items) => items,
        None => {
            let mut m = String::new();
            push_str(&mut m, "CHZZK category response missing list: ");
            push_str(&mut m, rendered_root);
            return Err(ChzzkApiError(m));
        },
    };
    let ghost item_views = items@.map_values(|x: JsonValue| x@);
    let mut res: Vec<ChzzkCategory> = Vec::new();
    let mut i: usize = 0;
    while i < items.len()
        invariant
            i <= items.len(),
            item_views == items@.map_values(|x: JsonValue| x@),
            res@.map_values(|c: ChzzkCategory| category_view(c)) == categories_of(
                item_views.subrange(0, i as int),
            ),
        decreases items.len() - i,
    {
        assert(item_views.subrange(0, i + 1).drop_last() == item_views.subrange(0, i as int));
        assert(item_views.subrange(0, i + 1).last() == items@[i as int]@);
        let item = &items[i];
        let category_type = extract_string(item, "categoryType");
        let category_id = extract_string(item, "categoryId");
        let category_value = extract_string(item, "categoryValue");
        if category_type.is_some() && category_id.is_some() && category_value.is_some() {
            let poster_image_url = extract_string(item, "posterImageUrl");
            let ghost before = res@;
            res.push(
                ChzzkCategory {
                    category_type: category_type.unwrap(),
                    category_id: category_id.unwrap(),
                    category_value: category_value.unwrap(),
                    poster_image_url,
                },
            );
            assert(res@.map_values(|c: ChzzkCategory| category_view(c)) =~= before.map_values(
                |c: ChzzkCategory| category_view(c),
            ).push(category_view(res@.last())));
        }
        i += 1;
    }
    assert(item_views.subrange(0, items.len() as int) == item_views);
    proof {
        lemma_categories_are_the_named_items(item_views);
    }
    Ok(res)
}

/// The live thumbnail of a live-detail payload: the payload's own, else
/// that of its `live` member.
pub open spec fn payload_thumbnail(p: JsonView) -> Option<Seq<char>> {
    or_else(
        live_thumbnail(p),
        match field(p, "live"@) {
            Some(l) => live_thumbnail(l),
            None => None,
        },
    )
}

/// The live thumbnail URL of a live-detail response.
pub fn thumbnail_from_response(root: &JsonValue) -> (res: Result<Option<String>, ChzzkApiError>)
    ensures
        res is Ok <==> response_code(root@) == 200,
        res matches Err(e) ==> e.0@ == api_code_message(root@),
        res matches Ok(t) ==> opt_view(t) == payload_thumbnail(payload_of(root@)),
{
    validate_api_code(root)?;
    let payload = extract_payload(root);
    match extract_live_item_thumbnail_url(payload) {
        Some(t) => Ok(Some(t)),
        None => match payload.get("live") {
            Some(live) => Ok(extract_live_item_thumbnail_url(live)),
            None => Ok(None),
        },
    }
}

/// The channel id of a user payload: under `channel` where present, else at
/// the top.
pub open spec fn channel_id_of(p: JsonView) -> Option<Seq<char>> {
    or_else(string_field(field_or_self(p, "channel"@), "channelId"@), string_field(p, "channelId"@))
}

/// The channel name of a user payload.
pub open spec fn channel_name_of(p: JsonView) -> Option<Seq<char>> {
    or_else(
        string_field(field_or_self(p, "channel"@), "channelName"@),
        string_field(p, "channelName"@),
    )
}

/// The channel identity of a user response.
pub fn user_channel_info_from_response(root: &JsonValue) -> (res: Result<
    ChzzkUserChannelInfo,
    ChzzkApiError,
>)
    ensures
        res is Ok <==> response_code(root@) == 200,
        res matches Err(e) ==> e.0@ == api_code_message(root@),
        res matches Ok(u) ==> opt_view(u.channel_id) == channel_id_of(payload_of(root@)) && opt_view(
            u.channel_name,
        ) == channel_name_of(payload_of(root@)),
{
    validate_api_code(root)?;
    let payload = extract_payload(root);
    let channel_root = match payload.get("channel") {
        Some(c) => c,
        None => payload,
    };
    let channel_id = match extract_string(channel_root, "channelId") {
        Some(t) => Some(t),
        None => extract_string(payload, "channelId"),
    };
    let channel_name = match extract_string(channel_root, "channelName") {
        Some(t) => Some(t),
        None => extract_string(payload, "channelName"),
    };
    Ok(ChzzkUserChannelInfo { channel_id, channel_name })
}


// ---------------------------------------------------------------------------
// Masking documents for logging
// ---------------------------------------------------------------------------

/// `v` with its credentials hidden: members named like a credential become
/// `***` (or stay `null`), and texts reached under such a name are masked
/// with [`masked_secret`]. `key` is the name under which `v` stands.
pub open spec fn masked_value(key: Option<Seq<char>>, v: JsonView) -> JsonView
    decreases v,
{
    match v {
        JsonView::Object(entries) => JsonView::Object(masked_entries(entries)),
        JsonView::Array(items) => JsonView::Array(masked_items(key, items)),
        JsonView::Str(t) => if key matches Some(k) && sensitive_key(k) {
            JsonView::Str(masked_secret(t))
        } else {
            JsonView::Str(t)
        },
        _ => v,
    }
}

/// The masked members of an object.
pub open spec fn masked_entries(entries: Seq<(Seq<char>, JsonView)>) -> Seq<(Seq<char>, JsonView)>
    decreases entries,
{
    if entries.len() == 0 {
        Seq::empty()
    } else {
        let (k, v) = entries.last();
        let m = if sensitive_key(k) {
            if v == JsonView::Null {
                JsonView::Null
            } else {
                JsonView::Str(MASKED@)
            }
        } else {
            masked_value(Some(k), v)
        };
        masked_entries(entries.drop_last()).push((k, m))
    }
}

/// The masked items of an array that stands under `key`.
pub open spec fn masked_items(key: Option<Seq<char>>, items: Seq<JsonView>) -> Seq<JsonView>
    decreases items,
{
    if items.len() == 0 {
        Seq::empty()
    } else {
        masked_items(key, items.drop_last()).push(masked_value(key, items.last()))
    }
}

proof fn lemma_masked_entries_step(entries: Seq<(Seq<char>, JsonView)>, i: int)
    requires
        0 <= i < entries.len(),
    ensures
        masked_entries(entries.subrange(0, i + 1)) == masked_entries(entries.subrange(0, i)).push(
            (
                entries[i].0,
                if sensitive_key(entries[i].0) {
                    if entries[i].1 == JsonView::Null {
                        JsonView::Null
                    } else {
                        JsonView::Str(MASKED@)
                    }
                } else {
                    masked_value(Some(entries[i].0), entries[i].1)
                },
            ),
        ),
{
    assert(entries.subrange(0, i + 1).drop_last() == entries.subrange(0, i));
    assert(entries.subrange(0, i + 1).last() == entries[i]);
}

proof fn lemma_masked_items_step(key: Option<Seq<char>>, items: Seq<JsonView>, i: int)
    requires
        0 <= i < items.len(),
    ensures
        masked_items(key, items.subrange(0, i + 1)) == masked_items(key, items.subrange(0, i)).push(
            masked_value(key, items[i]),
        ),
{
    assert(items.subrange(0, i + 1).drop_last() == items.subrange(0, i));
    assert(items.subrange(0, i + 1).last() == items[i]);
}

/// Copies a number.
fn copy_number(n: &crate::json::JsonNumber) -> (r: crate::json::JsonNumber)
    ensures
        r.text@ == n.text@,
        r.int_value == n.int_value,
{
    crate::json::JsonNumber { text: to_owned_string(n.text.as_str()), int_value: n.int_value }
}

/// A copy of `value` with its credentials hidden, for logging.
pub fn mask_json_value(key: Option<&str>, value: &JsonValue) -> (r: JsonValue)
    ensures
        r@ == masked_value(opt_str_view(key), value@),
    decreases value,
{
    match value {
        JsonValue::Object(entries) => {
            proof {
                lemma_entries_view(entries@);
            }
            let ghost ev = entries_view(entries@);
            let mut out: Vec<(String, JsonValue)> = Vec::new();
            let mut i: usize = 0;
            while i < entries.len()
                invariant
                    *value == JsonValue::Object(*entries),
                    i <= entries.len() == ev.len(),
                    ev == entries_view(entries@),
                    forall|j: int|
                        0 <= j < entries@.len() ==> #[trigger] ev[j] == (entries@[j].0@, entries@[j].1@),
                    entries_view(out@) == masked_entries(ev.subrange(0, i as int)),
                decreases entries.len() - i,
            {
                proof {
                    lemma_masked_entries_step(ev, i as int);
                    lemma_entries_view(out@);
                }
                assert(ev[i as int] == (entries@[i as int].0@, entries@[i as int].1@));
                let name = entries[i].0.as_str();
                let child = &entries[i].1;
                proof {
                    assert(decreases_to!(*value => (*value)->Object_0));
                    assert(decreases_to!(*entries => entries@));
                    assert(decreases_to!(entries@ => entries@[i as int]));
                    assert(decreases_to!(entries@[i as int] => entries@[i as int].1));
                }
                let masked = if is_sensitive_key(name) {
                    if child.is_null() {
                        JsonValue::Null
                    } else {
                        JsonValue::Str(to_owned_string(MASKED))
                    }
                } else {
                    mask_json_value(Some(name), child)
                };
                let ghost before = out@;
                out.push((to_owned_string(name), masked));
                proof {
                    lemma_entries_view(out@);
                    lemma_entries_view(before);
                }
                assert(entries_view(out@) =~= entries_view(before).push(
                    (out@.last().0@, out@.last().1@),
                ));
                i += 1;
            }
            assert(ev.subrange(0, entries.len() as int) == ev);
            JsonValue::Object(out)
        },
        JsonValue::Array(items) => {
            proof {
                lemma_items_view(items@);
            }
            let ghost iv = items_view(items@);
            let mut out: Vec<JsonValue> = Vec::new();
            let mut i: usize = 0;
            while i < items.len()
                invariant
                    *value == JsonValue::Array(*items),
                    i <= items.len() == iv.len(),
                    iv == items_view(items@),
                    forall|j: int| 0 <= j < items@.len() ==> #[trigger] iv[j] == items@[j]@,
                    items_view(out@) == masked_items(opt_str_view(key), iv.subrange(0, i as int)),
                decreases items.len() - i,
            {
                proof {
                    lemma_masked_items_step(opt_str_view(key), iv, i as int);
                }
                assert(iv[i as int] == items@[i as int]@);
                proof {
                    assert(decreases_to!(*value => (*value)->Array_0));
                    assert(decreases_to!(*items => items@));
                    assert(decreases_to!(items@ => items@[i as int]));
                }
                let masked = mask_json_value(key, &items[i]);
                let ghost before = out@;
                out.push(masked);
                assert(out@.drop_last() == before);
                i += 1;
            }
            assert(iv.subrange(0, items.len() as int) == iv);
            JsonValue::Array(out)
        },
        JsonValue::Str(text) => {
            let sensitive = match key {
                Some(k) => is_sensitive_key(k),
                None => false,
            };
            if sensitive {
                JsonValue::Str(mask_secret(text.as_str()))
            } else {
                JsonValue::Str(to_owned_string(text.as_str()))
            }
        },
        JsonValue::Null => JsonValue::Null,
        JsonValue::Bool(b) => JsonValue::Bool(*b),
        JsonValue::Number(n) => JsonValue::Number(copy_number(n)),
    }
}

} // verus!
