use obs_chzzk_extension::chzzk::{ChzzkApiError, ChzzkCategory, ChzzkLiveSettings};
use obs_chzzk_extension::dock_payload::response_json_value;
use obs_chzzk_extension::json::JsonValue;
use obs_chzzk_extension::settings::{
    apply_live_update_response, apply_update_and_reload, auth_status_for_token,
    chzzk_stream_service_fields, clear_live_category_response, clear_live_tags_response,
    key_name, load_live_setting_response, parse_tags_input, pick_category_thumbnail,
    presence_turned_off, reload_live_setting_or_status, require_linked_settings,
    response_from_result, sanitize_c_text, search_category_query, search_category_response,
    refresh_stream_key_status, settings_from_obs_data, stream_key_status_for_value,
    stream_key_to_apply, sync_auth_status, sync_source_auth_fields, next_thumbnail_step,
    thumbnail_lookup_plan, trim_value, update_settings_runtime_snapshot, LiveDockCategoryEntry,
    LiveDockResponse, ObsSettingsValues, PluginSettings, RuntimeSettings, ThumbnailStep,
};
use obs_chzzk_extension::storage::{
    file_bool_value, file_value, load_profile_settings, settings_from_file, settings_to_json,
};

fn linked() -> PluginSettings {
    let mut s = PluginSettings::default();
    s.chzzk_authorization_token = "token-1".to_string();
    s.chzzk_client_id = "cid".to_string();
    s.chzzk_client_secret = "csecret".to_string();
    s
}

fn category(kind: &str, id: &str, name: &str, poster: Option<&str>) -> ChzzkCategory {
    ChzzkCategory {
        category_type: kind.to_string(),
        category_id: id.to_string(),
        category_value: name.to_string(),
        poster_image_url: poster.map(|p| p.to_string()),
    }
}

#[test]
fn defaults_are_unlinked_with_presence_on() {
    let d = PluginSettings::default();
    assert_eq!(d.chzzk_api_base_url, "https://openapi.chzzk.naver.com");
    assert!(d.discord_presence_enabled);
    assert_eq!(d.discord_activity_name, "CHZZK Live");
    assert_eq!(d.chzzk_auth_status, "CHZZK account not linked");
}

#[test]
fn auth_status_follows_the_token() {
    assert_eq!(auth_status_for_token("  "), "CHZZK account not linked");
    assert_eq!(auth_status_for_token("t"), "CHZZK account linked");
    let mut s = PluginSettings::default();
    s.chzzk_authorization_token = "abc".to_string();
    s.chzzk_auth_status = "stale".to_string();
    sync_auth_status(&mut s);
    assert_eq!(s.chzzk_auth_status, "CHZZK account linked");
    sync_auth_status(&mut s);
    assert_eq!(s.chzzk_auth_status, "CHZZK account linked");
}

#[test]
fn runtime_settings_give_back_what_was_applied() {
    let mut runtime = RuntimeSettings::new();
    assert_eq!(runtime.current_settings().chzzk_auth_status, "CHZZK account not linked");
    let mut next = PluginSettings::default();
    next.discord_activity_name = "Show".to_string();
    runtime.apply_runtime_settings(next);
    assert_eq!(runtime.current_settings().discord_activity_name, "Show");
    let mut linked_next = PluginSettings::default();
    linked_next.chzzk_authorization_token = "tok".to_string();
    let kept = update_settings_runtime_snapshot(&mut runtime, linked_next, "CHZZK", "key-12345");
    assert_eq!(kept.chzzk_auth_status, "CHZZK account linked");
    assert_eq!(kept.chzzk_stream_key_status, "CHZZK stream key set (key***45)");
    assert_eq!(runtime.current_settings().chzzk_auth_status, "CHZZK account linked");
    assert_eq!(runtime.current_settings().chzzk_stream_key_status, "CHZZK stream key set (key***45)");
    let fields = sync_source_auth_fields(&kept);
    assert_eq!(
        fields,
        vec![
            ("chzzk_authorization_token".to_string(), "tok".to_string()),
            ("chzzk_auth_status".to_string(), "CHZZK account linked".to_string()),
            ("chzzk_stream_key_status".to_string(), "CHZZK stream key set (key***45)".to_string()),
        ]
    );
}

#[test]
fn small_text_conversions() {
    assert_eq!(trim_value("  v \n"), "v");
    assert_eq!(key_name(b"chzzk_client_id\0"), "chzzk_client_id");
    assert_eq!(sanitize_c_text("a\0b"), "a b");
}

#[test]
fn linked_settings_are_required() {
    assert_eq!(
        require_linked_settings(&PluginSettings::default()).err().unwrap(),
        "CHZZK account is not linked. Run OAuth first."
    );
    assert_eq!(require_linked_settings(&linked()).ok().unwrap().chzzk_authorization_token, "token-1");
}

#[test]
fn failed_results_become_failed_responses() {
    let r = response_from_result(Err("boom".to_string()));
    assert!(!r.ok);
    assert_eq!(r.status, "boom");
    assert!(r.live_title.is_none());
    let ok = response_from_result(Ok(LiveDockResponse::success("fine")));
    assert!(ok.ok);
    assert_eq!(ok.status, "fine");
    let reloaded = reload_live_setting_or_status(Err("net".to_string()), "Live tags cleared");
    assert!(reloaded.ok);
    assert_eq!(reloaded.status, "Live tags cleared, but failed to refresh fields: net");
    let failed = apply_update_and_reload(Err(ChzzkApiError("E".to_string())), "Failed to clear live tags");
    assert_eq!(failed.err().unwrap(), "Failed to clear live tags: E");
    assert!(apply_update_and_reload(Ok(()), "x").is_ok());
}

#[test]
fn loaded_live_setting_fills_every_field() {
    let live = ChzzkLiveSettings {
        live_title: Some("T".to_string()),
        category_type: None,
        category_id: Some("id".to_string()),
        category_name: None,
        tags: None,
    };
    let r = load_live_setting_response("Loaded current live setting", live, Some("p".to_string()));
    assert!(r.ok);
    assert_eq!(r.status, "Loaded current live setting");
    assert_eq!(r.live_title, Some("T".to_string()));
    assert_eq!(r.category_type, Some(String::new()));
    assert_eq!(r.category_id, Some("id".to_string()));
    assert_eq!(r.category_name, Some(String::new()));
    assert_eq!(r.poster_image_url, Some("p".to_string()));
    assert_eq!(r.tags, Some(Vec::new()));
    assert!(r.categories.is_none());
}

#[test]
fn thumbnail_lookup_needs_id_and_credentials() {
    assert!(thumbnail_lookup_plan(&linked(), "GAME", "  ", "Chess").is_none());
    assert!(thumbnail_lookup_plan(&PluginSettings::default(), "GAME", "chess", "Chess").is_none());
    let plan = thumbnail_lookup_plan(&linked(), " GAME ", " chess ", " Chess ").unwrap();
    assert_eq!(plan.query, "Chess");
    assert_eq!(plan.category_id, "chess");
    assert_eq!(plan.category_type, "GAME");
    assert!(plan.retry_with_id);
    let by_id = thumbnail_lookup_plan(&linked(), "", "chess", "  ").unwrap();
    assert_eq!(by_id.query, "chess");
    assert!(!by_id.retry_with_id);
}

#[test]
fn thumbnail_prefers_the_matching_type() {
    let items = vec![
        category("ETC", "chess", "Chess", Some("etc.png")),
        category("GAME", "chess", "Chess", Some("game.png")),
        category("GAME", "go", "Go", None),
    ];
    assert_eq!(pick_category_thumbnail(&items, "chess", "GAME"), Some("game.png".to_string()));
    assert_eq!(pick_category_thumbnail(&items, "chess", "SPORTS"), Some("etc.png".to_string()));
    assert_eq!(pick_category_thumbnail(&items, "chess", ""), Some("etc.png".to_string()));
    assert_eq!(pick_category_thumbnail(&items, "go", "GAME"), None);
    assert_eq!(pick_category_thumbnail(&items, "none", "GAME"), None);
}

#[test]
fn thumbnail_lookup_searches_by_id_once_after_a_miss() {
    let plan = thumbnail_lookup_plan(&linked(), "GAME", "chess", "Chess").unwrap();
    let hits = || vec![category("GAME", "chess", "Chess", Some("game.png"))];
    let misses = || vec![category("GAME", "go", "Go", Some("go.png"))];
    assert!(matches!(
        next_thumbnail_step(&plan, false, &Ok(hits())),
        ThumbnailStep::Found(url) if url == "game.png"
    ));
    assert!(matches!(next_thumbnail_step(&plan, true, &Ok(hits())), ThumbnailStep::Found(_)));
    assert!(matches!(next_thumbnail_step(&plan, false, &Ok(misses())), ThumbnailStep::SearchById));
    assert!(matches!(next_thumbnail_step(&plan, true, &Ok(misses())), ThumbnailStep::NotFound));
    assert!(matches!(
        next_thumbnail_step(&plan, false, &Err(ChzzkApiError("down".to_string()))),
        ThumbnailStep::NotFound
    ));
    let by_id = thumbnail_lookup_plan(&linked(), "", "chess", "").unwrap();
    assert!(matches!(next_thumbnail_step(&by_id, false, &Ok(misses())), ThumbnailStep::NotFound));
}

#[test]
fn category_search_checks_query_and_credentials() {
    assert_eq!(search_category_query("  ", &linked()).err().unwrap(), "Category Search Query is empty");
    assert_eq!(
        search_category_query("chess", &PluginSettings::default()).err().unwrap(),
        "CHZZK Client ID/Secret are required for category search"
    );
    assert_eq!(search_category_query(" chess ", &linked()).ok().unwrap(), "chess");
}

#[test]
fn category_search_response_selects_the_first_hit() {
    assert_eq!(search_category_response(Vec::new()).err().unwrap(), "No category found for the query");
    let r = search_category_response(vec![
        category("GAME", "chess", "Chess", Some("c.png")),
        category("GAME", "go", "Go", None),
    ])
    .ok()
    .unwrap();
    assert_eq!(r.status, "Found 2 categories. Select one from the list.");
    assert_eq!(r.category_id, Some("chess".to_string()));
    assert_eq!(r.category_name, Some("Chess".to_string()));
    let entries = r.categories.unwrap();
    assert_eq!(entries.len(), 2);
    assert_eq!(entries[1].category_name, "Go");
    assert_eq!(entries[1].poster_image_url, None);
}

#[test]
fn tags_are_split_trimmed_and_deduplicated() {
    assert_eq!(parse_tags_input(" a, B ,b\nc\r\n,,A "), vec!["a", "B", "c"]);
    assert!(parse_tags_input(" , \n").is_empty());
}

#[test]
fn live_update_needs_a_change() {
    let s = linked();
    assert_eq!(
        apply_live_update_response(&PluginSettings::default(), "t", "", "", "").err().unwrap(),
        "CHZZK account is not linked. Run OAuth first."
    );
    assert_eq!(
        apply_live_update_response(&s, "", "GAME", "", "").err().unwrap(),
        "Set both category type and category ID, or leave both empty"
    );
    assert_eq!(apply_live_update_response(&s, " ", "", "", " , ").err().unwrap(), "No live setting changes to apply");
    let u = apply_live_update_response(&s, " Title ", " GAME ", " chess ", "x, y").ok().unwrap();
    assert_eq!(u.default_live_title, Some("Title".to_string()));
    assert_eq!(u.category_type, Some("GAME".to_string()));
    assert_eq!(u.category_id, Some("chess".to_string()));
    assert_eq!(u.tags, Some(vec!["x".to_string(), "y".to_string()]));
    let tags_only = apply_live_update_response(&s, "", "", "", "z").ok().unwrap();
    assert!(tags_only.default_live_title.is_none());
    assert!(tags_only.category_id.is_none());
}

#[test]
fn clearing_sends_empty_values() {
    let tags = clear_live_tags_response(&linked()).ok().unwrap();
    assert_eq!(tags.tags, Some(Vec::new()));
    assert!(tags.category_id.is_none());
    let cat = clear_live_category_response(&linked()).ok().unwrap();
    assert_eq!(cat.category_id, Some(String::new()));
    assert!(cat.tags.is_none());
    assert!(clear_live_tags_response(&PluginSettings::default()).is_err());
}

#[test]
fn dialog_values_are_trimmed_with_defaults() {
    let values = ObsSettingsValues {
        chzzk_client_id: " id ".to_string(),
        chzzk_client_secret: "secret".to_string(),
        chzzk_api_base_url: "  ".to_string(),
        discord_application_id: " 99 ".to_string(),
        discord_activity_name: "".to_string(),
        discord_presence_enabled: false,
    };
    let current = linked();
    let s = settings_from_obs_data(&values, &current, "Twitch", "live_123456");
    assert_eq!(s.chzzk_client_id, "id");
    assert_eq!(s.chzzk_api_base_url, "https://openapi.chzzk.naver.com");
    assert_eq!(s.discord_application_id, "99");
    assert_eq!(s.discord_activity_name, "CHZZK Live");
    assert_eq!(s.chzzk_authorization_token, "token-1");
    assert_eq!(s.chzzk_auth_status, "CHZZK account linked");
    assert_eq!(s.chzzk_stream_key_status, "OBS streaming service is not CHZZK");
    assert!(presence_turned_off(&current, &s));
    assert!(!presence_turned_off(&s, &current));
}

#[test]
fn stream_key_switching_is_for_common_rtmp_only() {
    assert_eq!(stream_key_to_apply("  ").err().unwrap(), "CHZZK stream key is empty");
    assert_eq!(stream_key_to_apply(" k ").ok().unwrap(), "k");
    assert_eq!(
        chzzk_stream_service_fields("", "k").err().unwrap(),
        "OBS streaming service type 'unset' is not supported for automatic CHZZK switching"
    );
    assert_eq!(
        chzzk_stream_service_fields("rtmp_custom", "k").err().unwrap(),
        "OBS streaming service type 'rtmp_custom' is not supported for automatic CHZZK switching"
    );
    let fields = chzzk_stream_service_fields("rtmp_common", "k").ok().unwrap();
    assert_eq!(fields[0], ("service".to_string(), "CHZZK".to_string()));
    assert_eq!(fields[2], ("server".to_string(), "rtmp://global-rtmp.lip2.navercorp.com:8080/relay".to_string()));
    assert_eq!(fields[4], ("key".to_string(), "k".to_string()));
}

fn text(s: &str) -> JsonValue {
    JsonValue::Str(s.to_string())
}

fn obj(members: Vec<(&str, JsonValue)>) -> JsonValue {
    JsonValue::Object(members.into_iter().map(|(k, v)| (k.to_string(), v)).collect())
}

#[test]
fn settings_file_fields_fall_back_to_defaults() {
    let root = obj(vec![
        ("chzzk_client_id", text(" id ")),
        ("chzzk_api_base_url", text("  ")),
        ("discord_presence_enabled", text("TRUE")),
        ("chzzk_authorization_token", text("tok")),
        ("chzzk_auth_status", text("whatever")),
    ]);
    assert_eq!(file_value(&root, "chzzk_client_id", "x"), "id");
    assert_eq!(file_value(&root, "missing", "fallback"), "fallback");
    assert!(file_bool_value(&root, "discord_presence_enabled", false));
    assert!(!file_bool_value(&obj(vec![("f", text("yes"))]), "f", true));
    assert!(file_bool_value(&obj(vec![("f", text("1"))]), "f", false));
    assert!(file_bool_value(&obj(vec![("f", JsonValue::Null)]), "f", true));
    let s = settings_from_file(&root);
    assert_eq!(s.chzzk_client_id, "id");
    assert_eq!(s.chzzk_api_base_url, "https://openapi.chzzk.naver.com");
    assert_eq!(s.discord_activity_name, "CHZZK Live");
    assert_eq!(s.chzzk_auth_status, "CHZZK account linked");
    assert_eq!(load_profile_settings(None).chzzk_api_base_url, "https://openapi.chzzk.naver.com");
}

#[test]
fn settings_survive_a_file_round_trip() {
    let mut s = linked();
    s.discord_application_id = "42".to_string();
    s.discord_presence_enabled = false;
    s.discord_activity_name = "Show".to_string();
    sync_auth_status(&mut s);
    let back = settings_from_file(&settings_to_json(&s));
    assert_eq!(back.chzzk_client_id, s.chzzk_client_id);
    assert_eq!(back.chzzk_client_secret, s.chzzk_client_secret);
    assert_eq!(back.chzzk_api_base_url, s.chzzk_api_base_url);
    assert_eq!(back.discord_application_id, s.discord_application_id);
    assert_eq!(back.discord_presence_enabled, s.discord_presence_enabled);
    assert_eq!(back.discord_activity_name, s.discord_activity_name);
    assert_eq!(back.chzzk_authorization_token, s.chzzk_authorization_token);
    assert_eq!(back.chzzk_auth_status, s.chzzk_auth_status);
    assert_eq!(back.chzzk_stream_key_status, "CHZZK stream key not set");
    let mut stale = linked();
    stale.chzzk_auth_status = "stale".to_string();
    let reread = settings_from_file(&settings_to_json(&stale));
    assert_eq!(reread.chzzk_authorization_token, "token-1");
    assert_eq!(reread.chzzk_auth_status, "CHZZK account linked");
}

#[test]
fn stream_key_status_reports_the_obs_service() {
    assert_eq!(PluginSettings::default().chzzk_stream_key_status, "CHZZK stream key not set");
    assert_eq!(stream_key_status_for_value("", true), "CHZZK stream key not set");
    assert_eq!(stream_key_status_for_value("  ", false), "CHZZK stream key not set");
    assert_eq!(stream_key_status_for_value("abcdefgh", false), "OBS streaming service is not CHZZK");
    assert_eq!(stream_key_status_for_value("abcdefgh", true), "CHZZK stream key set (abc***gh)");
    assert_eq!(stream_key_status_for_value("abc", true), "CHZZK stream key set (***)");
    let mut s = PluginSettings::default();
    refresh_stream_key_status(&mut s, "chzzk", " abcdefgh ");
    assert_eq!(s.chzzk_stream_key_status, "CHZZK stream key set (abc***gh)");
    refresh_stream_key_status(&mut s, "CHZZK-TV", "abcdefgh");
    assert_eq!(s.chzzk_stream_key_status, "OBS streaming service is not CHZZK");
    refresh_stream_key_status(&mut s, "", "");
    assert_eq!(s.chzzk_stream_key_status, "CHZZK stream key not set");
    assert_eq!(s.chzzk_auth_status, "CHZZK account not linked");
}

#[test]
fn dock_response_document_lists_present_fields() {
    let mut r = LiveDockResponse::success("ok\0!");
    r.live_title = Some("T".to_string());
    r.tags = Some(vec!["a".to_string()]);
    r.categories = Some(vec![LiveDockCategoryEntry {
        category_type: "GAME".to_string(),
        category_id: "chess".to_string(),
        category_name: "Chess".to_string(),
        poster_image_url: None,
    }]);
    match response_json_value(&r) {
        JsonValue::Object(members) => {
            let keys: Vec<String> = members.iter().map(|(k, _)| k.clone()).collect();
            assert_eq!(keys, vec!["ok", "status", "liveTitle", "tags", "categories"]);
            assert!(matches!(members[0].1, JsonValue::Bool(true)));
            match &members[1].1 {
                JsonValue::Str(s) => assert_eq!(s, "ok !"),
                _ => panic!("status is a text"),
            }
            match &members[4].1 {
                JsonValue::Array(items) => match &items[0] {
                    JsonValue::Object(entry) => assert_eq!(entry.len(), 3),
                    _ => panic!("a category is an object"),
                },
                _ => panic!("categories are an array"),
            }
        },
        _ => panic!("a response is an object"),
    }
}
