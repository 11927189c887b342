//! The settings file: reading settings from its JSON document and writing
//! them into one. Locating, reading and writing the file are the caller's.

use vstd::prelude::*;

use crate::chzzk::{opt_view, string_field};
use crate::json::{
    as_flag, as_int, as_text, entries_view, field, lemma_entries_view, lemma_lookup_at, lookup,
    JsonValue, JsonView,
};
use crate::settings::{
    auth_status_text, default_settings, settings_from_values, sync_auth_status, synced, trimmed_or,
    ObsSettingsValues, PluginSettings, PluginSettingsView, DEFAULT_ACTIVITY_NAME, STREAM_KEY_NOT_SET,
};
use crate::chzzk::{extract_string, DEFAULT_API_BASE};
use crate::text::{
    ascii_lower_seq, ascii_lowercase, blank, is_ws, lemma_trim_idempotent, str_eq, to_owned_string,
    trim, trim_end, trim_start,
};

verus! {

/// The non-blank, trimmed text under `key`, else `fallback`.
pub open spec fn file_text(root: JsonView, key: Seq<char>, fallback: Seq<char>) -> Seq<char> {
    match string_field(root, key) {
        Some(t) => t,
        None => fallback,
    }
}

/// A text field of the settings file.
pub fn file_value(root: &JsonValue, key: &str, fallback: &str) -> (r: String)
    ensures
        r@ == file_text(root@, key@, fallback@),
{
    match extract_string(root, key) {
        Some(t) => t,
        None => to_owned_string(fallback),
    }
}

/// A flag of the settings file: a boolean, a non-zero integer, or the text
/// `true` (any ASCII case) or `1`; `fallback` where the value is missing or
/// of another kind.
pub open spec fn file_flag(root: JsonView, key: Seq<char>, fallback: bool) -> bool {
    match field(root, key) {
        Some(v) => match as_flag(v) {
            Some(b) => b,
            None => match as_int(v) {
                Some(n) => n != 0,
                None => match as_text(v) {
                    Some(t) => ascii_lower_seq(t) == "true"@ || t == "1"@,
                    None => fallback,
                },
            },
        },
        None => fallback,
    }
}

/// A flag field of the settings file.
pub fn file_bool_value(root: &JsonValue, key: &str, fallback: bool) -> (b: bool)
    ensures
        b == file_flag(root@, key@, fallback),
{
    match root.get(key) {
        Some(v) => match v.as_bool() {
            Some(b) => b,
            None => match v.as_i64() {
                Some(n) => n != 0,
                None => match v.as_str() {
                    Some(t) => {
                        let lower = ascii_lowercase(t.as_str());
                        str_eq(lower.as_str(), "true") || str_eq(t.as_str(), "1")
                    },
                    None => fallback,
                },
            },
        },
        None => fallback,
    }
}

/// The settings that a settings file holds: each text trimmed, the defaults
/// for what is missing or blank, the account status derived from the token,
/// and no stream key, which the file does not keep.
pub open spec fn settings_of_file(root: JsonView) -> PluginSettingsView {
    let d = default_settings();
    let token = file_text(root, "chzzk_authorization_token"@, Seq::empty());
    PluginSettingsView {
        chzzk_client_id: file_text(root, "chzzk_client_id"@, Seq::empty()),
        chzzk_client_secret: file_text(root, "chzzk_client_secret"@, Seq::empty()),
        chzzk_api_base_url: file_text(root, "chzzk_api_base_url"@, d.chzzk_api_base_url),
        discord_application_id: file_text(root, "discord_application_id"@, d.discord_application_id),
        discord_presence_enabled: file_flag(
            root,
            "discord_presence_enabled"@,
            d.discord_presence_enabled,
        ),
        discord_activity_name: file_text(root, "discord_activity_name"@, d.discord_activity_name),
        chzzk_authorization_token: token,
        chzzk_auth_status: auth_status_text(token),
        chzzk_stream_key_status: STREAM_KEY_NOT_SET@,
    }
}

/// The settings that a settings file holds (what `load_settings_from_file`
/// makes of the parsed document).
pub fn settings_from_file(root: &JsonValue) -> (s: PluginSettings)
    ensures
        s@ == settings_of_file(root@),
{
    proof {
        reveal_strlit("");
    }
    let mut settings = PluginSettings {
        chzzk_client_id: file_value(root, "chzzk_client_id", ""),
        chzzk_client_secret: file_value(root, "chzzk_client_secret", ""),
        chzzk_api_base_url: file_value(root, "chzzk_api_base_url", DEFAULT_API_BASE),
        discord_application_id: file_value(root, "discord_application_id", ""),
        discord_presence_enabled: file_bool_value(root, "discord_presence_enabled", true),
        discord_activity_name: file_value(root, "discord_activity_name", DEFAULT_ACTIVITY_NAME),
        chzzk_authorization_token: file_value(root, "chzzk_authorization_token", ""),
        chzzk_auth_status: file_value(root, "chzzk_auth_status", ""),
        chzzk_stream_key_status: to_owned_string(STREAM_KEY_NOT_SET),
    };
    assert(""@ == Seq::<char>::empty());
    sync_auth_status(&mut settings);
    settings
}

/// The settings found at startup: those of the file, or the defaults where
/// there is no readable file.
pub fn load_profile_settings(loaded: Option<PluginSettings>) -> (s: PluginSettings)
    ensures
        match loaded {
            Some(l) => s == l,
            None => s@ == default_settings(),
        },
{
    match loaded {
        Some(l) => l,
        None => PluginSettings::default(),
    }
}

/// The document that the settings file holds for `s`.
pub open spec fn settings_document(s: PluginSettingsView) -> JsonView {
    JsonView::Object(
        seq![
            ("chzzk_client_id"@, JsonView::Str(s.chzzk_client_id)),
            ("chzzk_client_secret"@, JsonView::Str(s.chzzk_client_secret)),
            ("chzzk_api_base_url"@, JsonView::Str(s.chzzk_api_base_url)),
            ("discord_application_id"@, JsonView::Str(s.discord_application_id)),
            ("discord_presence_enabled"@, JsonView::Bool(s.discord_presence_enabled)),
            ("discord_activity_name"@, JsonView::Str(s.discord_activity_name)),
            ("chzzk_authorization_token"@, JsonView::Str(s.chzzk_authorization_token)),
            ("chzzk_auth_status"@, JsonView::Str(s.chzzk_auth_status)),
        ],
    )
}

/// The document to write to the settings file (what
/// `persist_settings_to_file` encodes).
pub fn settings_to_json(settings: &PluginSettings) -> (v: JsonValue)
    ensures
        v@ == settings_document(settings@),
{
    let mut entries: Vec<(String, JsonValue)> = Vec::new();
    entries.push((to_owned_string("chzzk_client_id"), JsonValue::Str(to_owned_string(settings.chzzk_client_id.as_str()))));
    entries.push((to_owned_string("chzzk_client_secret"), JsonValue::Str(to_owned_string(settings.chzzk_client_secret.as_str()))));
    entries.push((to_owned_string("chzzk_api_base_url"), JsonValue::Str(to_owned_string(settings.chzzk_api_base_url.as_str()))));
    entries.push((to_owned_string("discord_application_id"), JsonValue::Str(to_owned_string(settings.discord_application_id.as_str()))));
    entries.push((to_owned_string("discord_presence_enabled"), JsonValue::Bool(settings.discord_presence_enabled)));
    entries.push((to_owned_string("discord_activity_name"), JsonValue::Str(to_owned_string(settings.discord_activity_name.as_str()))));
    entries.push((to_owned_string("chzzk_authorization_token"), JsonValue::Str(to_owned_string(settings.chzzk_authorization_token.as_str()))));
    entries.push((to_owned_string("chzzk_auth_status"), JsonValue::Str(to_owned_string(settings.chzzk_auth_status.as_str()))));
    proof {
        lemma_entries_view(entries@);
    }
    assert(entries_view(entries@) =~= match settings_document(settings@) {
        JsonView::Object(e) => e,
        _ => Seq::empty(),
    });
    JsonValue::Object(entries)
}


/// Whether a text is kept as it is by a write and a read of the file: it is
/// trimmed, and where it is empty the read's fallback is empty too.
pub open spec fn stored_as_is(t: Seq<char>, fallback: Seq<char>) -> bool {
    t == trim(t) && (t.len() == 0 ==> fallback.len() == 0)
}

/// Whether the texts of settings come back unchanged from the settings
/// file: they are trimmed, and the base URL and activity name are not empty.
pub open spec fn file_stable(s: PluginSettingsView) -> bool {
    &&& stored_as_is(s.chzzk_client_id, Seq::empty())
    &&& stored_as_is(s.chzzk_client_secret, Seq::empty())
    &&& stored_as_is(s.chzzk_api_base_url, DEFAULT_API_BASE@)
    &&& stored_as_is(s.discord_application_id, Seq::empty())
    &&& stored_as_is(s.discord_activity_name, DEFAULT_ACTIVITY_NAME@)
    &&& stored_as_is(s.chzzk_authorization_token, Seq::empty())
}

/// `s` as read back from the settings file, which keeps no stream-key
/// status.
pub open spec fn as_loaded(s: PluginSettingsView) -> PluginSettingsView {
    PluginSettingsView { chzzk_stream_key_status: STREAM_KEY_NOT_SET@, ..s }
}

/// Settings written to the settings file and read back are the same
/// settings, where they are trimmed and have a base URL and an activity
/// name; only the account status reads back as the one its token gives, and
/// the stream-key status, which the file does not keep, as not set.
pub proof fn lemma_settings_file_round_trip(s: PluginSettingsView)
    requires
        file_stable(s),
    ensures
        settings_of_file(settings_document(s)) == as_loaded(synced(s)),
{
    reveal_strlit("chzzk_client_id");
    reveal_strlit("chzzk_client_secret");
    reveal_strlit("chzzk_api_base_url");
    reveal_strlit("discord_application_id");
    reveal_strlit("discord_presence_enabled");
    reveal_strlit("discord_activity_name");
    reveal_strlit("chzzk_authorization_token");
    reveal_strlit("chzzk_auth_status");
    let doc = settings_document(s);
    let d = default_settings();
    let e = match doc {
        JsonView::Object(e) => e,
        _ => Seq::empty(),
    };
    assert(e.len() == 8);
    assert("chzzk_client_id"@.len() == 15);
    assert("chzzk_client_secret"@.len() == 19);
    assert("chzzk_api_base_url"@.len() == 18);
    assert("discord_application_id"@.len() == 22);
    assert("discord_presence_enabled"@.len() == 24);
    assert("discord_activity_name"@.len() == 21);
    assert("chzzk_authorization_token"@.len() == 25);
    assert("chzzk_auth_status"@.len() == 17);
    assert(forall|i: int, j: int| 0 <= i < 8 && 0 <= j < 8 && i != j ==> e[i].0.len() != e[j].0.len());
    assert forall|i: int| 0 <= i < 8 implies lookup(e, #[trigger] e[i].0) == Some(e[i].1) by {
        lemma_lookup_at(e, e[i].0, i);
    }
    assert(file_text(doc, "chzzk_client_id"@, Seq::empty()) == s.chzzk_client_id);
    assert(file_text(doc, "chzzk_client_secret"@, Seq::empty()) == s.chzzk_client_secret);
    assert(file_text(doc, "chzzk_api_base_url"@, d.chzzk_api_base_url) == s.chzzk_api_base_url);
    assert(file_text(doc, "discord_application_id"@, d.discord_application_id) == s.discord_application_id);
    assert(file_flag(doc, "discord_presence_enabled"@, d.discord_presence_enabled) == s.discord_presence_enabled);
    assert(file_text(doc, "discord_activity_name"@, d.discord_activity_name) == s.discord_activity_name);
    assert(file_text(doc, "chzzk_authorization_token"@, Seq::empty()) == s.chzzk_authorization_token);
}

/// A text that starts and ends with a non-whitespace character is its own
/// trimming.
proof fn lemma_trim_of_solid(t: Seq<char>)
    requires
        t.len() > 0,
        !is_ws(t[0]),
        !is_ws(t.last()),
    ensures
        trim(t) == t,
{
    assert(trim_start(t) == t);
    assert(trim_end(t) == t);
}

/// What `trimmed_or` gives is stored as is, where the default is.
proof fn lemma_trimmed_or_stored(v: Seq<char>, default: Seq<char>)
    requires
        stored_as_is(default, default),
    ensures
        stored_as_is(trimmed_or(v, default), default),
{
    lemma_trim_idempotent(v);
}

/// Settings taken from the properties dialog come back unchanged from the
/// settings file, where the held token has no surrounding whitespace; only
/// the stream-key status, which the file does not keep, reads back as not
/// set.
pub proof fn lemma_dialog_settings_persist(
    values: ObsSettingsValues,
    current: PluginSettingsView,
    service_name: Seq<char>,
    stream_key: Seq<char>,
)
    requires
        stored_as_is(current.chzzk_authorization_token, Seq::empty()),
    ensures
        settings_of_file(settings_document(settings_from_values(&values, current, service_name, stream_key)))
            == as_loaded(settings_from_values(&values, current, service_name, stream_key)),
{
    let s = settings_from_values(&values, current, service_name, stream_key);
    reveal_strlit("https://openapi.chzzk.naver.com");
    reveal_strlit("CHZZK Live");
    lemma_trim_of_solid(DEFAULT_API_BASE@);
    lemma_trim_of_solid(DEFAULT_ACTIVITY_NAME@);
    lemma_trim_idempotent(values.chzzk_client_id@);
    lemma_trim_idempotent(values.chzzk_client_secret@);
    lemma_trimmed_or_stored(values.chzzk_api_base_url@, DEFAULT_API_BASE@);
    lemma_trimmed_or_stored(values.discord_activity_name@, DEFAULT_ACTIVITY_NAME@);
    assert(trim(Seq::<char>::empty()) == Seq::<char>::empty());
    lemma_trimmed_or_stored(values.discord_application_id@, Seq::empty());
    assert(stored_as_is(s.chzzk_client_id, Seq::empty()));
    assert(stored_as_is(s.chzzk_client_secret, Seq::empty()));
    assert(file_stable(s));
    assert(synced(s) == s);
    lemma_settings_file_round_trip(s);
}

} // verus!
