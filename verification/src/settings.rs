//! Plugin settings, the live-editor dock's responses, and the decisions of
//! the dock's actions.
//!
//! OBS data access, the runtime snapshot's lock and the HTTP calls are the
//! caller's; this module decides on plain values.

use vstd::prelude::*;
use vstd::utf8::encode_utf8;

use crate::chzzk::{
    category_view, opt_strings_view, opt_view, strings_view, ChzzkApiError, ChzzkCategory,
    ChzzkLiveSettingUpdate, ChzzkLiveSettings, DEFAULT_API_BASE, mask_secret, masked_secret,
};
use crate::text::{
    ascii_lower, ascii_lower_seq, ascii_lowercase, blank, chars_of, is_blank, is_ws,
    is_whitespace, lemma_trim_empty_iff_blank, lossy_utf8, push_str, str_eq, string_from_range,
    to_owned_string, trim, trim_bounds, trim_string, utf8_lossy_string, views,
};

verus! {

/// File name of the settings file.
pub const SETTINGS_FILE_NAME: &'static str = "obs_chzzk_extension.json";

/// Keys of the settings in OBS data and in the settings file.
pub const KEY_CHZZK_CLIENT_ID: &'static str = "chzzk_client_id";
pub const KEY_CHZZK_CLIENT_SECRET: &'static str = "chzzk_client_secret";
pub const KEY_CHZZK_API_BASE_URL: &'static str = "chzzk_api_base_url";
pub const KEY_DISCORD_APPLICATION_ID: &'static str = "discord_application_id";
pub const KEY_DISCORD_PRESENCE_ENABLED: &'static str = "discord_presence_enabled";
pub const KEY_DISCORD_ACTIVITY_NAME: &'static str = "discord_activity_name";
pub const KEY_CHZZK_AUTHORIZATION_TOKEN: &'static str = "chzzk_authorization_token";
pub const KEY_CHZZK_AUTH_STATUS: &'static str = "chzzk_auth_status";
pub const KEY_CHZZK_STREAM_KEY_STATUS: &'static str = "chzzk_stream_key_status";

/// Port of the local OAuth callback endpoint.
pub const OAUTH_CALLBACK_PORT: u16 = 20132;

/// How long to wait for the OAuth callback, in seconds.
pub const OAUTH_CALLBACK_WAIT_TIMEOUT_SECS: u64 = 120;

/// How often to look for the OAuth callback, in milliseconds.
pub const OAUTH_CALLBACK_POLL_INTERVAL_MS: u64 = 200;

/// Status text of a linked account.
pub const AUTH_LINKED: &'static str = "CHZZK account linked";

/// Status text of an unlinked account.
pub const AUTH_NOT_LINKED: &'static str = "CHZZK account not linked";

/// Stream-key status where OBS has no stream key.
pub const STREAM_KEY_NOT_SET: &'static str = "CHZZK stream key not set";

/// Stream-key status where OBS streams to another service.
pub const STREAM_KEY_OTHER_SERVICE: &'static str = "OBS streaming service is not CHZZK";

/// Default Discord activity name.
pub const DEFAULT_ACTIVITY_NAME: &'static str = "CHZZK Live";

/// The plugin's settings.
pub struct PluginSettings {
    pub chzzk_client_id: String,
    pub chzzk_client_secret: String,
    pub chzzk_api_base_url: String,
    pub discord_application_id: String,
    pub discord_presence_enabled: bool,
    pub discord_activity_name: String,
    pub chzzk_authorization_token: String,
    pub chzzk_auth_status: String,
    pub chzzk_stream_key_status: String,
}

/// The mathematical form of the settings.
pub struct PluginSettingsView {
    pub chzzk_client_id: Seq<char>,
    pub chzzk_client_secret: Seq<char>,
    pub chzzk_api_base_url: Seq<char>,
    pub discord_application_id: Seq<char>,
    pub discord_presence_enabled: bool,
    pub discord_activity_name: Seq<char>,
    pub chzzk_authorization_token: Seq<char>,
    pub chzzk_auth_status: Seq<char>,
    pub chzzk_stream_key_status: Seq<char>,
}

impl View for PluginSettings {
    type V = PluginSettingsView;

    open spec fn view(&self) -> PluginSettingsView {
        PluginSettingsView {
            chzzk_client_id: self.chzzk_client_id@,
            chzzk_client_secret: self.chzzk_client_secret@,
            chzzk_api_base_url: self.chzzk_api_base_url@,
            discord_application_id: self.discord_application_id@,
            discord_presence_enabled: self.discord_presence_enabled,
            discord_activity_name: self.discord_activity_name@,
            chzzk_authorization_token: self.chzzk_authorization_token@,
            chzzk_auth_status: self.chzzk_auth_status@,
            chzzk_stream_key_status: self.chzzk_stream_key_status@,
        }
    }
}

/// The default settings.
pub open spec fn default_settings() -> PluginSettingsView {
    PluginSettingsView {
        chzzk_client_id: Seq::empty(),
        chzzk_client_secret: Seq::empty(),
        chzzk_api_base_url: DEFAULT_API_BASE@,
        discord_application_id: Seq::empty(),
        discord_presence_enabled: true,
        discord_activity_name: DEFAULT_ACTIVITY_NAME@,
        chzzk_authorization_token: Seq::empty(),
        chzzk_auth_status: AUTH_NOT_LINKED@,
        chzzk_stream_key_status: STREAM_KEY_NOT_SET@,
    }
}

impl Default for PluginSettings {
    fn default() -> (s: Self)
        ensures
            s@ == default_settings(),
    {
        PluginSettings {
            chzzk_client_id: String::new(),
            chzzk_client_secret: String::new(),
            chzzk_api_base_url: to_owned_string(DEFAULT_API_BASE),
            discord_application_id: String::new(),
            discord_presence_enabled: true,
            discord_activity_name: to_owned_string(DEFAULT_ACTIVITY_NAME),
            chzzk_authorization_token: String::new(),
            chzzk_auth_status: to_owned_string(AUTH_NOT_LINKED),
            chzzk_stream_key_status: to_owned_string(STREAM_KEY_NOT_SET),
        }
    }
}

impl PluginSettings {
    /// A copy of the settings.
    pub fn duplicate(&self) -> (s: Self)
        ensures
            s@ == self@,
    {
        PluginSettings {
            chzzk_client_id: to_owned_string(self.chzzk_client_id.as_str()),
            chzzk_client_secret: to_owned_string(self.chzzk_client_secret.as_str()),
            chzzk_api_base_url: to_owned_string(self.chzzk_api_base_url.as_str()),
            discord_application_id: to_owned_string(self.discord_application_id.as_str()),
            discord_presence_enabled: self.discord_presence_enabled,
            discord_activity_name: to_owned_string(self.discord_activity_name.as_str()),
            chzzk_authorization_token: to_owned_string(self.chzzk_authorization_token.as_str()),
            chzzk_auth_status: to_owned_string(self.chzzk_auth_status.as_str()),
            chzzk_stream_key_status: to_owned_string(self.chzzk_stream_key_status.as_str()),
        }
    }
}

/// The account status shown for a token: linked unless it is blank.
pub open spec fn auth_status_text(token: Seq<char>) -> Seq<char> {
    if blank(token) {
        AUTH_NOT_LINKED@
    } else {
        AUTH_LINKED@
    }
}

/// The account status shown for a token.
pub fn auth_status_for_token(token: &str) -> (s: String)
    ensures
        s@ == auth_status_text(token@),
{
    if is_blank(token) {
        to_owned_string(AUTH_NOT_LINKED)
    } else {
        to_owned_string(AUTH_LINKED)
    }
}

/// Sets the account status from the token; nothing else changes.
pub fn sync_auth_status(settings: &mut PluginSettings)
    ensures
        final(settings)@ == (PluginSettingsView {
            chzzk_auth_status: auth_status_text(old(settings).chzzk_authorization_token@),
            ..old(settings)@
        }),
{
    settings.chzzk_auth_status = auth_status_for_token(settings.chzzk_authorization_token.as_str());
}

/// The account status always follows the token after a sync, and a second
/// sync changes nothing.
pub proof fn lemma_sync_auth_status_idempotent(s: PluginSettingsView)
    ensures
        ({
            let once = PluginSettingsView {
                chzzk_auth_status: auth_status_text(s.chzzk_authorization_token),
                ..s
            };
            let twice = PluginSettingsView {
                chzzk_auth_status: auth_status_text(once.chzzk_authorization_token),
                ..once
            };
            twice == once
        }),
{
}

/// `value.trim().to_string()`.
pub fn trim_value(value: &str) -> (r: String)
    ensures
        r@ == trim(value@),
{
    trim_string(value)
}

/// `b` without one trailing NUL byte, where it ends with one.
pub open spec fn without_trailing_nul(b: Seq<u8>) -> Seq<u8> {
    if b.len() > 0 && b.last() == 0 {
        b.drop_last()
    } else {
        b
    }
}

/// The name of a NUL-terminated settings key.
pub fn key_name(key: &[u8]) -> (r: String)
    ensures
        r@ == lossy_utf8(without_trailing_nul(key@)),
{
    let mut bytes: Vec<u8> = Vec::new();
    let end = if key.len() > 0 && key[key.len() - 1] == 0 {
        key.len() - 1
    } else {
        key.len()
    };
    let mut i: usize = 0;
    while i < end
        invariant
            end <= key.len(),
            i <= end,
            bytes@ == key@.subrange(0, i as int),
        decreases end - i,
    {
        bytes.push(key[i]);
        assert(key@.subrange(0, i + 1) == key@.subrange(0, i as int).push(key@[i as int]));
        i += 1;
    }
    assert(without_trailing_nul(key@) == key@.subrange(0, end as int));
    utf8_lossy_string(bytes.as_slice())
}

/// `s` with each NUL character replaced by a space.
pub open spec fn nul_to_space(s: Seq<char>) -> Seq<char> {
    s.map_values(|c: char| if c == '\0' { ' ' } else { c })
}

/// Makes text safe for a C string: NUL characters become spaces.
pub fn sanitize_c_text(value: &str) -> (r: String)
    ensures
        r@ == nul_to_space(value@),
{
    let v = chars_of(value);
    let mut r = String::new();
    let mut i: usize = 0;
    while i < v.len()
        invariant
            v@ == value@,
            i <= v.len(),
            r@ == nul_to_space(v@.subrange(0, i as int)),
        decreases v.len() - i,
    {
        let c = if v[i] == '\0' {
            ' '
        } else {
            v[i]
        };
        crate::text::push_char(&mut r, c);
        assert(nul_to_space(v@.subrange(0, i + 1)) =~= nul_to_space(v@.subrange(0, i as int)).push(c));
        i += 1;
    }
    assert(v@.subrange(0, v@.len() as int) == v@);
    r
}

/// The settings held for the running plugin.
pub struct RuntimeSettings {
    pub current: PluginSettings,
}

impl RuntimeSettings {
    /// Holds the default settings.
    pub fn new() -> (r: Self)
        ensures
            r.current@ == default_settings(),
    {
        RuntimeSettings { current: PluginSettings::default() }
    }

    /// Replaces the held settings.
    pub fn apply_runtime_settings(&mut self, next: PluginSettings)
        ensures
            final(self).current@ == next@,
    {
        self.current = next;
    }

    /// A copy of the held settings.
    pub fn current_settings(&self) -> (s: PluginSettings)
        ensures
            s@ == self.current@,
    {
        self.current.duplicate()
    }
}

/// The stream-key status shown for OBS's stream key and whether OBS's
/// streaming service is CHZZK: not set where the key is blank; another
/// service where it is not CHZZK; else the key, masked.
pub open spec fn stream_key_status_text(stream_key: Seq<char>, is_chzzk_service: bool) -> Seq<char> {
    if blank(stream_key) {
        STREAM_KEY_NOT_SET@
    } else if !is_chzzk_service {
        STREAM_KEY_OTHER_SERVICE@
    } else {
        "CHZZK stream key set ("@ + masked_secret(stream_key) + ")"@
    }
}

/// The stream-key status shown for OBS's stream key.
pub fn stream_key_status_for_value(stream_key: &str, is_chzzk_service: bool) -> (r: String)
    ensures
        r@ == stream_key_status_text(stream_key@, is_chzzk_service),
{
    if is_blank(stream_key) {
        return to_owned_string(STREAM_KEY_NOT_SET);
    }
    if !is_chzzk_service {
        return to_owned_string(STREAM_KEY_OTHER_SERVICE);
    }
    let mut r = to_owned_string("CHZZK stream key set (");
    let masked = mask_secret(stream_key);
    push_str(&mut r, masked.as_str());
    push_str(&mut r, ")");
    r
}

/// Whether OBS's streaming service is named CHZZK, ignoring ASCII case.
pub open spec fn is_chzzk_service_name(service_name: Seq<char>) -> bool {
    ascii_lower_seq(service_name) == "chzzk"@
}

/// `s` with the stream-key status of OBS's streaming service, given by its
/// name and stream key (both empty where OBS has no service).
pub open spec fn with_stream_key_status(s: PluginSettingsView, service_name: Seq<char>, stream_key: Seq<char>) -> PluginSettingsView {
    PluginSettingsView {
        chzzk_stream_key_status: stream_key_status_text(stream_key, is_chzzk_service_name(service_name)),
        ..s
    }
}

/// Records the stream-key status of OBS's streaming service, read by the
/// caller as its service name and stream key (both empty where OBS has no
/// service or no service settings).
pub fn refresh_stream_key_status(settings: &mut PluginSettings, service_name: &str, stream_key: &str)
    ensures
        final(settings)@ == with_stream_key_status(old(settings)@, service_name@, stream_key@),
{
    let lower = ascii_lowercase(service_name);
    let is_chzzk = str_eq(lower.as_str(), "chzzk");
    settings.chzzk_stream_key_status = stream_key_status_for_value(stream_key, is_chzzk);
}

/// `s` with the account status following its token.
pub open spec fn synced(s: PluginSettingsView) -> PluginSettingsView {
    PluginSettingsView { chzzk_auth_status: auth_status_text(s.chzzk_authorization_token), ..s }
}

/// Takes in new settings: syncs the account status to the token, records
/// the stream-key status of OBS's streaming service, and holds the result,
/// which is returned for the caller to write to the settings file and to
/// the source.
pub fn update_settings_runtime_snapshot(
    runtime: &mut RuntimeSettings,
    settings: PluginSettings,
    service_name: &str,
    stream_key: &str,
) -> (r: PluginSettings)
    ensures
        r@ == with_stream_key_status(synced(settings@), service_name@, stream_key@),
        final(runtime).current@ == r@,
{
    let mut settings = settings;
    sync_auth_status(&mut settings);
    refresh_stream_key_status(&mut settings, service_name, stream_key);
    let kept = settings.duplicate();
    runtime.apply_runtime_settings(settings);
    kept
}

/// The source fields that carry the account state, as (key, value) pairs:
/// the token, the account status and the stream-key status.
pub fn sync_source_auth_fields(settings: &PluginSettings) -> (r: Vec<(String, String)>)
    ensures
        r@.len() == 3,
        r@[0].0@ == KEY_CHZZK_AUTHORIZATION_TOKEN@,
        r@[0].1@ == settings.chzzk_authorization_token@,
        r@[1].0@ == KEY_CHZZK_AUTH_STATUS@,
        r@[1].1@ == settings.chzzk_auth_status@,
        r@[2].0@ == KEY_CHZZK_STREAM_KEY_STATUS@,
        r@[2].1@ == settings.chzzk_stream_key_status@,
{
    let mut r: Vec<(String, String)> = Vec::new();
    r.push((to_owned_string(KEY_CHZZK_AUTHORIZATION_TOKEN), settings.chzzk_authorization_token.clone()));
    r.push((to_owned_string(KEY_CHZZK_AUTH_STATUS), settings.chzzk_auth_status.clone()));
    r.push((to_owned_string(KEY_CHZZK_STREAM_KEY_STATUS), settings.chzzk_stream_key_status.clone()));
    r
}

// ---------------------------------------------------------------------------
// The live-editor dock
// ---------------------------------------------------------------------------

/// A category offered in the dock.
pub struct LiveDockCategoryEntry {
    pub category_type: String,
    pub category_id: String,
    pub category_name: String,
    pub poster_image_url: Option<String>,
}

/// What the dock shows after an action: whether it succeeded, a status text,
/// and the fields that the action produced.
pub struct LiveDockResponse {
    pub ok: bool,
    pub status: String,
    pub live_title: Option<String>,
    pub category_type: Option<String>,
    pub category_id: Option<String>,
    pub category_name: Option<String>,
    pub poster_image_url: Option<String>,
    pub tags: Option<Vec<String>>,
    pub categories: Option<Vec<LiveDockCategoryEntry>>,
}

/// The view of a dock category.
pub open spec fn entry_view(e: LiveDockCategoryEntry) -> (Seq<char>, Seq<char>, Seq<char>, Option<Seq<char>>) {
    (e.category_type@, e.category_id@, e.category_name@, opt_view(e.poster_image_url))
}

/// The views of optional dock categories.
pub open spec fn opt_entries_view(o: Option<Vec<LiveDockCategoryEntry>>) -> Option<Seq<(Seq<char>, Seq<char>, Seq<char>, Option<Seq<char>>)>> {
    match o {
        Some(v) => Some(v@.map_values(|e: LiveDockCategoryEntry| entry_view(e))),
        None => None,
    }
}

/// A response with only an outcome and a status.
pub open spec fn bare_response(r: &LiveDockResponse, ok: bool, status: Seq<char>) -> bool {
    &&& r.ok == ok
    &&& r.status@ == status
    &&& r.live_title is None
    &&& r.category_type is None
    &&& r.category_id is None
    &&& r.category_name is None
    &&& r.poster_image_url is None
    &&& r.tags is None
    &&& r.categories is None
}

impl LiveDockResponse {
    /// A successful response with a status and no fields.
    pub fn success(status: &str) -> (r: Self)
        ensures
            bare_response(&r, true, status@),
    {
        LiveDockResponse {
            ok: true,
            status: to_owned_string(status),
            live_title: None,
            category_type: None,
            category_id: None,
            category_name: None,
            poster_image_url: None,
            tags: None,
            categories: None,
        }
    }

    /// A failed response with a status and no fields.
    pub fn error(status: String) -> (r: Self)
        ensures
            bare_response(&r, false, status@),
    {
        LiveDockResponse {
            ok: false,
            status,
            live_title: None,
            category_type: None,
            category_id: None,
            category_name: None,
            poster_image_url: None,
            tags: None,
            categories: None,
        }
    }
}

/// `context: error`.
pub open spec fn with_context(context: Seq<char>, error: Seq<char>) -> Seq<char> {
    context + ": "@ + error
}

/// `context: error`, the form of the dock's failure messages.
pub fn context_error(context: &str, error: &str) -> (r: String)
    ensures
        r@ == with_context(context@, error@),
{
    let mut r = String::new();
    push_str(&mut r, context);
    push_str(&mut r, ": ");
    push_str(&mut r, error);
    r
}

/// The message shown when no account is linked.
pub open spec fn not_linked_message() -> Seq<char> {
    "CHZZK account is not linked. Run OAuth first."@
}

/// The settings, where an account is linked.
pub fn require_linked_settings(settings: &PluginSettings) -> (r: Result<PluginSettings, String>)
    ensures
        blank(settings.chzzk_authorization_token@) ==> (r matches Err(e) && e@
            == not_linked_message()),
        !blank(settings.chzzk_authorization_token@) ==> (r matches Ok(s) && s@ == settings@),
{
    if is_blank(settings.chzzk_authorization_token.as_str()) {
        return Err(to_owned_string("CHZZK account is not linked. Run OAuth first."));
    }
    Ok(settings.duplicate())
}

/// The response of a failed action: the error, as a failed response.
pub fn response_from_result(response: Result<LiveDockResponse, String>) -> (r: LiveDockResponse)
    ensures
        match response {
            Ok(x) => r == x,
            Err(e) => bare_response(&r, false, e@),
        },
{
    match response {
        Ok(x) => x,
        Err(e) => LiveDockResponse::error(e),
    }
}

/// The response after a change was applied: the reloaded fields, or, where
/// reloading failed, a success naming the action and the reload's error.
pub fn reload_live_setting_or_status(reload: Result<LiveDockResponse, String>, action_label: &str) -> (r: LiveDockResponse)
    ensures
        match reload {
            Ok(x) => r == x,
            Err(e) => bare_response(
                &r,
                true,
                action_label@ + ", but failed to refresh fields: "@ + e@,
            ),
        },
{
    match reload {
        Ok(x) => x,
        Err(e) => {
            let mut m = String::new();
            push_str(&mut m, action_label);
            push_str(&mut m, ", but failed to refresh fields: ");
            push_str(&mut m, e.as_str());
            LiveDockResponse::success(m.as_str())
        },
    }
}

/// The outcome of sending a live-settings change: an error names the
/// context, so the dock can show it.
pub fn apply_update_and_reload(update_result: Result<(), ChzzkApiError>, error_context: &str) -> (r: Result<(), String>)
    ensures
        match update_result {
            Ok(()) => r is Ok,
            Err(e) => r matches Err(m) && m@ == with_context(error_context@, e.0@),
        },
{
    match update_result {
        Ok(()) => Ok(()),
        Err(e) => Err(context_error(error_context, e.0.as_str())),
    }
}

/// Copies a string.
fn copy_string(s: &String) -> (r: String)
    ensures
        r@ == s@,
{
    to_owned_string(s.as_str())
}

/// An option's text, or the empty text.
pub open spec fn or_empty(o: Option<Seq<char>>) -> Seq<char> {
    match o {
        Some(s) => s,
        None => Seq::empty(),
    }
}

/// The dock response for the current live settings: every field present,
/// missing ones empty, and the category's poster where one was found.
pub fn load_live_setting_response(status: &str, live: ChzzkLiveSettings, poster_image_url: Option<String>) -> (r: LiveDockResponse)
    ensures
        r.ok,
        r.status@ == status@,
        opt_view(r.live_title) == Some(or_empty(opt_view(live.live_title))),
        opt_view(r.category_type) == Some(or_empty(opt_view(live.category_type))),
        opt_view(r.category_id) == Some(or_empty(opt_view(live.category_id))),
        opt_view(r.category_name) == Some(or_empty(opt_view(live.category_name))),
        opt_view(r.poster_image_url) == opt_view(poster_image_url),
        opt_strings_view(r.tags) == Some(
            match opt_strings_view(live.tags) {
                Some(t) => t,
                None => Seq::empty(),
            },
        ),
        r.categories is None,
{
    let live_title = match live.live_title {
        Some(t) => t,
        None => String::new(),
    };
    let category_type = match live.category_type {
        Some(t) => t,
        None => String::new(),
    };
    let category_id = match live.category_id {
        Some(t) => t,
        None => String::new(),
    };
    let category_name = match live.category_name {
        Some(t) => t,
        None => String::new(),
    };
    let tags = match live.tags {
        Some(t) => t,
        None => {
            let t: Vec<String> = Vec::new();
            assert(strings_view(t@) =~= Seq::<Seq<char>>::empty());
            t
        },
    };
    LiveDockResponse {
        ok: true,
        status: to_owned_string(status),
        live_title: Some(live_title),
        category_type: Some(category_type),
        category_id: Some(category_id),
        category_name: Some(category_name),
        poster_image_url,
        tags: Some(tags),
        categories: None,
    }
}

/// How to look up the poster of the current category: search by `query`,
/// then, where that finds nothing and the query was not the id, by the id.
pub struct ThumbnailLookup {
    pub query: String,
    pub category_id: String,
    pub category_type: String,
    pub retry_with_id: bool,
}

/// Whether the poster of the current category can be looked up: it needs a
/// category id and client credentials.
pub open spec fn thumbnail_lookup_possible(s: PluginSettingsView, category_id: Seq<char>) -> bool {
    !blank(category_id) && !blank(s.chzzk_client_id) && !blank(s.chzzk_client_secret)
}

/// The query of the poster lookup: the category's name, else its id.
pub open spec fn thumbnail_query(category_id: Seq<char>, category_name: Seq<char>) -> Seq<char> {
    if blank(category_name) {
        trim(category_id)
    } else {
        trim(category_name)
    }
}

/// Plans the poster lookup of the current category (the first part of
/// `resolve_current_category_thumbnail`).
pub fn thumbnail_lookup_plan(settings: &PluginSettings, category_type: &str, category_id: &str, category_name: &str) -> (r: Option<ThumbnailLookup>)
    ensures
        r is Some <==> thumbnail_lookup_possible(settings@, category_id@),
        r matches Some(l) ==> {
            &&& l.query@ == thumbnail_query(category_id@, category_name@)
            &&& l.category_id@ == trim(category_id@)
            &&& l.category_type@ == trim(category_type@)
            &&& l.retry_with_id == (thumbnail_query(category_id@, category_name@) != trim(category_id@))
        },
{
    if is_blank(category_id) {
        return None;
    }
    if is_blank(settings.chzzk_client_id.as_str()) || is_blank(settings.chzzk_client_secret.as_str()) {
        return None;
    }
    let id = trim_string(category_id);
    let query = if is_blank(category_name) {
        trim_string(category_id)
    } else {
        trim_string(category_name)
    };
    let retry = !str_eq(query.as_str(), id.as_str());
    Some(ThumbnailLookup { query, category_id: id, category_type: trim_string(category_type), retry_with_id: retry })
}

/// The position of the first category with the id and, where a type is
/// given, the type.
pub open spec fn first_match(items: Seq<(Seq<char>, Seq<char>, Seq<char>, Option<Seq<char>>)>, id: Seq<char>, ty: Seq<char>) -> Option<int>
    decreases items.len(),
{
    if items.len() == 0 {
        None
    } else if items[0].1 == id && (ty.len() == 0 || items[0].0 == ty) {
        Some(0)
    } else {
        match first_match(items.drop_first(), id, ty) {
            Some(i) => Some(i + 1),
            None => None,
        }
    }
}

/// The poster of the category with `id` among search hits: the first hit
/// with the id and type, else the first with the id.
pub open spec fn picked_poster(items: Seq<(Seq<char>, Seq<char>, Seq<char>, Option<Seq<char>>)>, id: Seq<char>, ty: Seq<char>) -> Option<Seq<char>> {
    match first_match(items, id, ty) {
        Some(i) => items[i].3,
        None => match first_match(items, id, Seq::empty()) {
            Some(i) => items[i].3,
            None => None,
        },
    }
}

proof fn lemma_first_match(items: Seq<(Seq<char>, Seq<char>, Seq<char>, Option<Seq<char>>)>, id: Seq<char>, ty: Seq<char>)
    ensures
        first_match(items, id, ty) matches Some(i) ==> 0 <= i < items.len(),
    decreases items.len(),
{
    if items.len() > 0 {
        lemma_first_match(items.drop_first(), id, ty);
    }
}

fn find_category(items: &Vec<ChzzkCategory>, id: &str, ty: &str) -> (r: Option<usize>)
    ensures
        match first_match(items@.map_values(|c: ChzzkCategory| category_view(c)), id@, ty@) {
            Some(i) => r == Some(i as usize),
            None => r is None,
        },
{
    let ghost iv = items@.map_values(|c: ChzzkCategory| category_view(c));
    let ty_empty = ty.is_empty();
    let mut i: usize = 0;
    assert(iv.subrange(0, iv.len() as int) == iv);
    while i < items.len()
        invariant
            i <= items.len(),
            iv == items@.map_values(|c: ChzzkCategory| category_view(c)),
            ty_empty == (ty@.len() == 0),
            first_match(iv, id@, ty@) == match first_match(iv.subrange(i as int, iv.len() as int), id@, ty@) {
                Some(k) => Some(k + i),
                None => None,
            },
        decreases items.len() - i,
    {
        let ghost rest = iv.subrange(i as int, iv.len() as int);
        assert(rest[0] == category_view(items@[i as int]));
        assert(rest.drop_first() == iv.subrange(i + 1, iv.len() as int));
        if str_eq(items[i].category_id.as_str(), id) && (ty_empty || str_eq(items[i].category_type.as_str(), ty)) {
            return Some(i);
        }
        i += 1;
    }
    None
}

/// The poster of the category with `category_id` among search hits (what
/// `resolve_current_category_thumbnail` picks from each search).
pub fn pick_category_thumbnail(items: &Vec<ChzzkCategory>, category_id: &str, category_type: &str) -> (r: Option<String>)
    ensures
        opt_view(r) == picked_poster(items@.map_values(|c: ChzzkCategory| category_view(c)), category_id@, category_type@),
{
    let ghost iv = items@.map_values(|c: ChzzkCategory| category_view(c));
    proof {
        lemma_first_match(iv, category_id@, category_type@);
        lemma_first_match(iv, category_id@, Seq::empty());
    }
    let found = match find_category(items, category_id, category_type) {
        Some(i) => Some(i),
        None => {
            assert(""@.len() == 0) by {
                reveal_strlit("");
            }
            assert(""@ == Seq::<char>::empty());
            find_category(items, category_id, "")
        },
    };
    assert(match first_match(iv, category_id@, category_type@) {
        Some(k) => found == Some(k as usize),
        None => match first_match(iv, category_id@, Seq::empty()) {
            Some(k) => found == Some(k as usize),
            None => found is None,
        },
    });
    if found.is_some() {
        let i = found.unwrap();
        {
            proof {
                assert(iv.len() == items.len());
                if let Some(k) = first_match(iv, category_id@, category_type@) {
                    assert(k == i as int);
                } else {
                    assert(first_match(iv, category_id@, Seq::empty())->0 == i as int);
                }
            }
            assert(picked_poster(iv, category_id@, category_type@) == iv[i as int].3);
            assert(iv[i as int] == category_view(items@[i as int]));
            match &items[i].poster_image_url {
                Some(u) => Some(copy_string(u)),
                None => None,
            }
        }
    } else {
        None
    }
}

/// What the poster lookup does after one of its searches.
pub enum ThumbnailStep {
    /// The poster was found.
    Found(String),
    /// Nothing matched: search again, by the category id.
    SearchById,
    /// No poster: the search failed, or nothing matched and no search is left.
    NotFound,
}

/// The step of the poster lookup `plan` after a search, by its query or,
/// where `by_id`, by the category id: a failed search ends the lookup; a
/// poster among the hits is the result; else the lookup searches by the id
/// once, where the plan asks for that and it has not yet done so.
pub fn next_thumbnail_step(plan: &ThumbnailLookup, by_id: bool, outcome: &Result<Vec<ChzzkCategory>, ChzzkApiError>) -> (r: ThumbnailStep)
    ensures
        match outcome {
            Err(_) => r is NotFound,
            Ok(items) => match picked_poster(
                items@.map_values(|c: ChzzkCategory| category_view(c)),
                plan.category_id@,
                plan.category_type@,
            ) {
                Some(url) => r matches ThumbnailStep::Found(p) && p@ == url,
                None => if plan.retry_with_id && !by_id {
                    r is SearchById
                } else {
                    r is NotFound
                },
            },
        },
{
    match outcome {
        Err(_) => ThumbnailStep::NotFound,
        Ok(items) => match pick_category_thumbnail(items, plan.category_id.as_str(), plan.category_type.as_str()) {
            Some(url) => ThumbnailStep::Found(url),
            None => if plan.retry_with_id && !by_id {
                ThumbnailStep::SearchById
            } else {
                ThumbnailStep::NotFound
            },
        },
    }
}

/// The trimmed query of a category search, unless it is blank or the
/// client credentials are missing (the checks of `search_category_response`).
pub fn search_category_query(query: &str, settings: &PluginSettings) -> (r: Result<String, String>)
    ensures
        blank(query@) ==> (r matches Err(e) && e@ == "Category Search Query is empty"@),
        !blank(query@) && (blank(settings.chzzk_client_id@) || blank(settings.chzzk_client_secret@))
            ==> (r matches Err(e) && e@ == "CHZZK Client ID/Secret are required for category search"@),
        !blank(query@) && !blank(settings.chzzk_client_id@) && !blank(settings.chzzk_client_secret@)
            ==> (r matches Ok(q) && q@ == trim(query@)),
{
    if is_blank(query) {
        return Err(to_owned_string("Category Search Query is empty"));
    }
    if is_blank(settings.chzzk_client_id.as_str()) || is_blank(settings.chzzk_client_secret.as_str()) {
        return Err(to_owned_string("CHZZK Client ID/Secret are required for category search"));
    }
    Ok(trim_string(query))
}

/// The dock response to search hits: all of them offered, the first one
/// preselected; no hits is an error.
pub fn search_category_response(categories: Vec<ChzzkCategory>) -> (r: Result<LiveDockResponse, String>)
    ensures
        categories@.len() == 0 ==> (r matches Err(e) && e@ == "No category found for the query"@),
        categories@.len() > 0 ==> (r matches Ok(resp) && {
            let first = category_view(categories@[0]);
            &&& resp.ok
            &&& resp.status@ == "Found "@ + crate::text::decimal(categories@.len()) + " categories. Select one from the list."@
            &&& opt_view(resp.category_type) == Some(first.0)
            &&& opt_view(resp.category_id) == Some(first.1)
            &&& opt_view(resp.category_name) == Some(first.2)
            &&& opt_entries_view(resp.categories) == Some(categories@.map_values(|c: ChzzkCategory| category_view(c)))
            &&& resp.live_title is None
            &&& resp.poster_image_url is None
            &&& resp.tags is None
        }),
{
    let n = categories.len();
    if n == 0 {
        return Err(to_owned_string("No category found for the query"));
    }
    let first_type = copy_string(&categories[0].category_type);
    let first_id = copy_string(&categories[0].category_id);
    let first_name = copy_string(&categories[0].category_value);
    let ghost cv = categories@.map_values(|c: ChzzkCategory| category_view(c));
    let mut entries: Vec<LiveDockCategoryEntry> = Vec::new();
    let mut taken: usize = 0;
    while taken < n
        invariant
            n == categories@.len(),
            taken <= n,
            entries@.map_values(|e: LiveDockCategoryEntry| entry_view(e)) == categories@.subrange(0, taken as int).map_values(|c: ChzzkCategory| category_view(c)),
        decreases n - taken,
    {
        let c = &categories[taken];
        let poster = match &c.poster_image_url {
            Some(u) => Some(copy_string(u)),
            None => None,
        };
        let ghost before = entries@;
        entries.push(LiveDockCategoryEntry {
            category_type: copy_string(&c.category_type),
            category_id: copy_string(&c.category_id),
            category_name: copy_string(&c.category_value),
            poster_image_url: poster,
        });
        assert(entry_view(entries@.last()) == category_view(categories@[taken as int]));
        assert(entries@.map_values(|e: LiveDockCategoryEntry| entry_view(e)) =~= before.map_values(|e: LiveDockCategoryEntry| entry_view(e)).push(entry_view(entries@.last())));
        assert(categories@.subrange(0, taken + 1).map_values(|c: ChzzkCategory| category_view(c)) =~= categories@.subrange(0, taken as int).map_values(|c: ChzzkCategory| category_view(c)).push(category_view(categories@[taken as int])));
        assert(entries@.map_values(|e: LiveDockCategoryEntry| entry_view(e)) =~= categories@.subrange(0, taken + 1).map_values(|c: ChzzkCategory| category_view(c)));
        taken += 1;
    }
    let ghost all = categories@;
    assert(all.subrange(0, all.len() as int) == all);
    let mut status = String::new();
    push_str(&mut status, "Found ");
    crate::text::push_decimal(&mut status, n as u64);
    push_str(&mut status, " categories. Select one from the list.");
    Ok(LiveDockResponse {
        ok: true,
        status,
        live_title: None,
        category_type: Some(first_type),
        category_id: Some(first_id),
        category_name: Some(first_name),
        poster_image_url: None,
        tags: None,
        categories: Some(entries),
    })
}


// ---------------------------------------------------------------------------
// Editing the live settings from the dock
// ---------------------------------------------------------------------------

/// The characters that separate tags: comma, line feed, carriage return.
pub open spec fn is_tag_separator(c: char) -> bool {
    c == ',' || c == '\n' || c == '\r'
}

/// A left-to-right split at tag separators: the finished pieces and the
/// piece being read.
pub open spec fn split_state(s: Seq<char>) -> (Seq<Seq<char>>, Seq<char>)
    decreases s.len(),
{
    if s.len() == 0 {
        (Seq::empty(), Seq::empty())
    } else {
        let (done, cur) = split_state(s.drop_last());
        if is_tag_separator(s.last()) {
            (done.push(cur), Seq::empty())
        } else {
            (done, cur.push(s.last()))
        }
    }
}

/// The pieces of a text split at tag separators.
pub open spec fn tag_pieces(s: Seq<char>) -> Seq<Seq<char>> {
    let (done, cur) = split_state(s);
    done.push(cur)
}

/// Whether some kept tag equals `t` ignoring ASCII case.
pub open spec fn seen_tag(kept: Seq<Seq<char>>, t: Seq<char>) -> bool {
    exists|j: int| 0 <= j < kept.len() && ascii_lower_seq(#[trigger] kept[j]) == ascii_lower_seq(t)
}

/// The tags of the pieces: trimmed, blank ones dropped, and only the first
/// of those equal ignoring ASCII case kept.
pub open spec fn dedup_tags(pieces: Seq<Seq<char>>) -> Seq<Seq<char>>
    decreases pieces.len(),
{
    if pieces.len() == 0 {
        Seq::empty()
    } else {
        let prev = dedup_tags(pieces.drop_last());
        let t = trim(pieces.last());
        if blank(pieces.last()) || seen_tag(prev, t) {
            prev
        } else {
            prev.push(t)
        }
    }
}

/// The tags typed into the dock.
pub open spec fn parsed_tags(raw: Seq<char>) -> Seq<Seq<char>> {
    dedup_tags(tag_pieces(raw))
}

fn split_tag_pieces(raw: &str) -> (pieces: Vec<String>)
    ensures
        views(pieces@) == tag_pieces(raw@),
{
    let v = chars_of(raw);
    let mut done: Vec<String> = Vec::new();
    let mut cur = String::new();
    let mut i: usize = 0;
    while i < v.len()
        invariant
            v@ == raw@,
            i <= v.len(),
            (views(done@), cur@) == split_state(v@.subrange(0, i as int)),
        decreases v.len() - i,
    {
        assert(v@.subrange(0, i + 1).drop_last() == v@.subrange(0, i as int));
        let c = v[i];
        if c == ',' || c == '\n' || c == '\r' {
            let piece = cur;
            let ghost before = done@;
            done.push(piece);
            assert(views(done@) =~= views(before).push(piece@));
            cur = String::new();
        } else {
            crate::text::push_char(&mut cur, c);
        }
        i += 1;
    }
    assert(v@.subrange(0, v@.len() as int) == v@);
    let ghost before = done@;
    done.push(cur);
    assert(views(done@) =~= views(before).push(done@.last()@));
    done
}

fn contains_ignoring_ascii_case(seen: &Vec<String>, lower: &String) -> (b: bool)
    ensures
        b == exists|j: int| 0 <= j < seen@.len() && (#[trigger] seen@[j])@ == lower@,
{
    let mut j: usize = 0;
    while j < seen.len()
        invariant
            j <= seen.len(),
            forall|k: int| 0 <= k < j ==> (#[trigger] seen@[k])@ != lower@,
        decreases seen.len() - j,
    {
        if str_eq(seen[j].as_str(), lower.as_str()) {
            return true;
        }
        j += 1;
    }
    false
}

/// The tags typed into the dock: split at commas and line breaks, trimmed,
/// blank ones dropped, repeats (ignoring ASCII case) dropped.
pub fn parse_tags_input(raw: &str) -> (tags: Vec<String>)
    ensures
        views(tags@) == parsed_tags(raw@),
{
    let pieces = split_tag_pieces(raw);
    let ghost pv = views(pieces@);
    let mut tags: Vec<String> = Vec::new();
    let mut seen: Vec<String> = Vec::new();
    let mut i: usize = 0;
    while i < pieces.len()
        invariant
            i <= pieces.len(),
            pv == views(pieces@),
            views(tags@) == dedup_tags(pv.subrange(0, i as int)),
            seen@.len() == tags@.len(),
            forall|k: int| 0 <= k < seen@.len() ==> (#[trigger] seen@[k])@ == ascii_lower_seq(tags@[k]@),
        decreases pieces.len() - i,
    {
        assert(pv.subrange(0, i + 1).drop_last() == pv.subrange(0, i as int));
        assert(pv.subrange(0, i + 1).last() == pieces@[i as int]@);
        let ghost kept = views(tags@);
        if !is_blank(pieces[i].as_str()) {
            let tag = trim_string(pieces[i].as_str());
            let key = ascii_lowercase(tag.as_str());
            let found = contains_ignoring_ascii_case(&seen, &key);
            assert(found == seen_tag(kept, tag@)) by {
                if found {
                    let j = choose|j: int| 0 <= j < seen@.len() && (#[trigger] seen@[j])@ == key@;
                    assert(kept[j] == tags@[j]@);
                }
                if seen_tag(kept, tag@) {
                    let j = choose|j: int| 0 <= j < kept.len() && ascii_lower_seq(#[trigger] kept[j]) == ascii_lower_seq(tag@);
                    assert(kept[j] == tags@[j]@);
                    assert(seen@[j]@ == key@);
                }
            }
            if !found {
                let ghost tb = tags@;
                let ghost sb = seen@;
                tags.push(tag);
                seen.push(key);
                assert(views(tags@) =~= views(tb).push(tags@.last()@));
                assert forall|k: int| 0 <= k < seen@.len() implies (#[trigger] seen@[k])@ == ascii_lower_seq(tags@[k]@) by {
                    if k < sb.len() {
                        assert(seen@[k] == sb[k]);
                        assert(tags@[k] == tb[k]);
                    }
                }
            }
        }
        i += 1;
    }
    assert(pv.subrange(0, pieces.len() as int) == pv);
    tags
}

/// The error of a dock update, in the order the checks run; `None` where an
/// update is sent.
pub open spec fn live_update_error(
    s: PluginSettingsView,
    live_title: Seq<char>,
    category_type: Seq<char>,
    category_id: Seq<char>,
    tags_input: Seq<char>,
) -> Option<Seq<char>> {
    if blank(s.chzzk_authorization_token) {
        Some(not_linked_message())
    } else if blank(category_type) != blank(category_id) {
        Some("Set both category type and category ID, or leave both empty"@)
    } else if blank(live_title) && blank(category_type) && parsed_tags(tags_input).len() == 0 {
        Some("No live setting changes to apply"@)
    } else {
        None
    }
}

/// The change that the dock's fields ask for: a non-blank title, a category
/// given as type and id together, and the typed tags where there are any.
pub fn apply_live_update_response(
    settings: &PluginSettings,
    live_title: &str,
    category_type: &str,
    category_id: &str,
    tags_input: &str,
) -> (r: Result<ChzzkLiveSettingUpdate, String>)
    ensures
        live_update_error(settings@, live_title@, category_type@, category_id@, tags_input@) matches Some(m)
            ==> (r matches Err(e) && e@ == m),
        live_update_error(settings@, live_title@, category_type@, category_id@, tags_input@) is None
            ==> (r matches Ok(u) && {
            &&& opt_view(u.default_live_title) == if blank(live_title@) {
                None
            } else {
                Some(trim(live_title@))
            }
            &&& opt_view(u.category_type) == if blank(category_type@) {
                None
            } else {
                Some(trim(category_type@))
            }
            &&& opt_view(u.category_id) == if blank(category_id@) {
                None
            } else {
                Some(trim(category_id@))
            }
            &&& opt_strings_view(u.tags) == if parsed_tags(tags_input@).len() == 0 {
                None
            } else {
                Some(parsed_tags(tags_input@))
            }
        }),
{
    let _linked = require_linked_settings(settings)?;
    let mut update = ChzzkLiveSettingUpdate::new();
    if !is_blank(live_title) {
        update.default_live_title = Some(trim_string(live_title));
    }
    let has_category_type = !is_blank(category_type);
    let has_category_id = !is_blank(category_id);
    if has_category_type != has_category_id {
        return Err(to_owned_string("Set both category type and category ID, or leave both empty"));
    }
    if has_category_type {
        update.category_type = Some(trim_string(category_type));
        update.category_id = Some(trim_string(category_id));
    }
    let tags = parse_tags_input(tags_input);
    if tags.len() > 0 {
        update.tags = Some(tags);
    }
    if update.is_empty() {
        return Err(to_owned_string("No live setting changes to apply"));
    }
    Ok(update)
}

/// The change that clears the live tags, where an account is linked.
pub fn clear_live_tags_response(settings: &PluginSettings) -> (r: Result<ChzzkLiveSettingUpdate, String>)
    ensures
        blank(settings.chzzk_authorization_token@) ==> (r matches Err(e) && e@ == not_linked_message()),
        !blank(settings.chzzk_authorization_token@) ==> (r matches Ok(u) && u.default_live_title is None
            && u.category_type is None && u.category_id is None && opt_strings_view(u.tags) == Some(
            Seq::<Seq<char>>::empty(),
        )),
{
    let _linked = require_linked_settings(settings)?;
    let mut update = ChzzkLiveSettingUpdate::new();
    let tags: Vec<String> = Vec::new();
    assert(strings_view(tags@) =~= Seq::<Seq<char>>::empty());
    update.tags = Some(tags);
    Ok(update)
}

/// The change that clears the live category, where an account is linked.
pub fn clear_live_category_response(settings: &PluginSettings) -> (r: Result<ChzzkLiveSettingUpdate, String>)
    ensures
        blank(settings.chzzk_authorization_token@) ==> (r matches Err(e) && e@ == not_linked_message()),
        !blank(settings.chzzk_authorization_token@) ==> (r matches Ok(u) && u.default_live_title is None
            && u.category_type is None && opt_view(u.category_id) == Some(Seq::<char>::empty())
            && u.tags is None),
{
    let _linked = require_linked_settings(settings)?;
    let mut update = ChzzkLiveSettingUpdate::new();
    update.category_id = Some(String::new());
    Ok(update)
}

// ---------------------------------------------------------------------------
// Settings from the properties dialog
// ---------------------------------------------------------------------------

/// The values that the properties dialog holds, as OBS gives them.
pub struct ObsSettingsValues {
    pub chzzk_api_base_url: String,
    pub chzzk_client_id: String,
    pub chzzk_client_secret: String,
    pub discord_application_id: String,
    pub discord_activity_name: String,
    pub discord_presence_enabled: bool,
}

/// `trim(v)`, or `default` where that is empty.
pub open spec fn trimmed_or(v: Seq<char>, default: Seq<char>) -> Seq<char> {
    if trim(v).len() == 0 {
        default
    } else {
        trim(v)
    }
}

/// The settings that the dialog's values give: trimmed, defaults for an
/// empty base URL, application id and activity name; the token kept from the
/// current settings, the account status derived from it, and the stream-key
/// status of OBS's streaming service, given by its name and stream key.
pub open spec fn settings_from_values(
    values: &ObsSettingsValues,
    current: PluginSettingsView,
    service_name: Seq<char>,
    stream_key: Seq<char>,
) -> PluginSettingsView {
    PluginSettingsView {
        chzzk_client_id: trim(values.chzzk_client_id@),
        chzzk_client_secret: trim(values.chzzk_client_secret@),
        chzzk_api_base_url: trimmed_or(values.chzzk_api_base_url@, DEFAULT_API_BASE@),
        discord_application_id: trimmed_or(values.discord_application_id@, Seq::empty()),
        discord_presence_enabled: values.discord_presence_enabled,
        discord_activity_name: trimmed_or(values.discord_activity_name@, DEFAULT_ACTIVITY_NAME@),
        chzzk_authorization_token: current.chzzk_authorization_token,
        chzzk_auth_status: auth_status_text(current.chzzk_authorization_token),
        chzzk_stream_key_status: stream_key_status_text(stream_key, is_chzzk_service_name(service_name)),
    }
}

fn trimmed_or_default(v: &str, default: &str) -> (r: String)
    ensures
        r@ == trimmed_or(v@, default@),
{
    let t = trim_string(v);
    if t.as_str().is_empty() {
        to_owned_string(default)
    } else {
        t
    }
}

/// The settings that the properties dialog's values give, with the
/// stream-key status of OBS's streaming service, read by the caller as its
/// service name and stream key (both empty where OBS has none).
pub fn settings_from_obs_data(
    values: &ObsSettingsValues,
    current: &PluginSettings,
    service_name: &str,
    stream_key: &str,
) -> (s: PluginSettings)
    ensures
        s@ == settings_from_values(values, current@, service_name@, stream_key@),
{
    let mut parsed = PluginSettings {
        chzzk_client_id: trim_string(values.chzzk_client_id.as_str()),
        chzzk_client_secret: trim_string(values.chzzk_client_secret.as_str()),
        chzzk_api_base_url: trimmed_or_default(values.chzzk_api_base_url.as_str(), DEFAULT_API_BASE),
        discord_application_id: trimmed_or_default(values.discord_application_id.as_str(), ""),
        discord_presence_enabled: values.discord_presence_enabled,
        discord_activity_name: trimmed_or_default(values.discord_activity_name.as_str(), DEFAULT_ACTIVITY_NAME),
        chzzk_authorization_token: copy_string(&current.chzzk_authorization_token),
        chzzk_auth_status: copy_string(&current.chzzk_auth_status),
        chzzk_stream_key_status: copy_string(&current.chzzk_stream_key_status),
    };
    proof {
        reveal_strlit("");
    }
    assert(""@ == Seq::<char>::empty());
    sync_auth_status(&mut parsed);
    refresh_stream_key_status(&mut parsed, service_name, stream_key);
    parsed
}

/// Whether an update of the settings turned the presence off, which stops
/// a running presence.
pub fn presence_turned_off(previous: &PluginSettings, next: &PluginSettings) -> (b: bool)
    ensures
        b == (previous.discord_presence_enabled && !next.discord_presence_enabled),
{
    previous.discord_presence_enabled && !next.discord_presence_enabled
}

// ---------------------------------------------------------------------------
// The CHZZK stream key in OBS
// ---------------------------------------------------------------------------

/// Service id of OBS's common RTMP services.
pub const CHZZK_SERVICE_ID: &'static str = "rtmp_common";
/// Service name of CHZZK in OBS.
pub const CHZZK_SERVICE_NAME: &'static str = "CHZZK";
/// Protocol of the CHZZK ingest.
pub const CHZZK_PROTOCOL: &'static str = "RTMP";
/// The CHZZK ingest server.
pub const CHZZK_SERVER: &'static str = "rtmp://global-rtmp.lip2.navercorp.com:8080/relay";
/// Where CHZZK shows the stream key.
pub const CHZZK_STREAM_KEY_LINK: &'static str = "https://studio.chzzk.naver.com/setting";

/// The trimmed stream key, unless it is blank (the first check of
/// `set_obs_chzzk_stream_key`).
pub fn stream_key_to_apply(stream_key: &str) -> (r: Result<String, String>)
    ensures
        blank(stream_key@) ==> (r matches Err(e) && e@ == "CHZZK stream key is empty"@),
        !blank(stream_key@) ==> (r matches Ok(k) && k@ == trim(stream_key@)),
{
    if is_blank(stream_key) {
        return Err(to_owned_string("CHZZK stream key is empty"));
    }
    Ok(trim_string(stream_key))
}

/// The error for a streaming service of another type.
pub open spec fn unsupported_service_message(service_type: Seq<char>) -> Seq<char> {
    "OBS streaming service type '"@ + (if service_type.len() == 0 {
        "unset"@
    } else {
        service_type
    }) + "' is not supported for automatic CHZZK switching"@
}

/// The service settings that switch OBS to CHZZK with a stream key, for a
/// streaming service of the common RTMP type (the decision of
/// `set_obs_chzzk_stream_key`).
pub fn chzzk_stream_service_fields(service_type: &str, stream_key: &str) -> (r: Result<Vec<(String, String)>, String>)
    ensures
        service_type@ != CHZZK_SERVICE_ID@ ==> (r matches Err(e) && e@ == unsupported_service_message(service_type@)),
        service_type@ == CHZZK_SERVICE_ID@ ==> (r matches Ok(f) && f@.map_values(|p: (String, String)| (p.0@, p.1@)) == seq![
            ("service"@, CHZZK_SERVICE_NAME@),
            ("protocol"@, CHZZK_PROTOCOL@),
            ("server"@, CHZZK_SERVER@),
            ("stream_key_link"@, CHZZK_STREAM_KEY_LINK@),
            ("key"@, stream_key@),
        ]),
{
    if !str_eq(service_type, CHZZK_SERVICE_ID) {
        let mut m = String::new();
        push_str(&mut m, "OBS streaming service type '");
        if service_type.is_empty() {
            push_str(&mut m, "unset");
        } else {
            push_str(&mut m, service_type);
        }
        push_str(&mut m, "' is not supported for automatic CHZZK switching");
        return Err(m);
    }
    let mut f: Vec<(String, String)> = Vec::new();
    f.push((to_owned_string("service"), to_owned_string(CHZZK_SERVICE_NAME)));
    f.push((to_owned_string("protocol"), to_owned_string(CHZZK_PROTOCOL)));
    f.push((to_owned_string("server"), to_owned_string(CHZZK_SERVER)));
    f.push((to_owned_string("stream_key_link"), to_owned_string(CHZZK_STREAM_KEY_LINK)));
    f.push((to_owned_string("key"), to_owned_string(stream_key)));
    assert(f@.map_values(|p: (String, String)| (p.0@, p.1@)) =~= seq![
        ("service"@, CHZZK_SERVICE_NAME@),
        ("protocol"@, CHZZK_PROTOCOL@),
        ("server"@, CHZZK_SERVER@),
        ("stream_key_link"@, CHZZK_STREAM_KEY_LINK@),
        ("key"@, stream_key@),
    ]);
    Ok(f)
}

} // verus!
