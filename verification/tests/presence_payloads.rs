use obs_chzzk_extension::chzzk::{ChzzkLiveSettings, ChzzkUserChannelInfo};
use obs_chzzk_extension::presence::{
    build_activity_payload, build_clear_activity_payload, build_handshake_payload,
    build_presence_config, build_set_activity_payload, is_supported_stream_url, json_escape,
    json_string, non_empty, nonce, presence_prerequisites, to_discord_asset_image, ActivityAssets,
    ActivityType, PresenceActivity, PresenceConfig, PresenceSkip,
};
use obs_chzzk_extension::settings::PluginSettings;

fn config(activity: PresenceActivity) -> PresenceConfig {
    PresenceConfig { application_id: "123".to_string(), activity }
}

#[test]
fn json_escape_escapes_quotes_and_controls() {
    assert_eq!(json_escape("a\"b\\c"), "a\\\"b\\\\c");
    assert_eq!(json_escape("\n\r\t\u{8}\u{c}"), "\\n\\r\\t\\b\\f");
    assert_eq!(json_escape("\u{1}\u{7f}\u{9f}"), "\\u0001\\u007f\\u009f");
    assert_eq!(json_escape("치지직"), "치지직");
    assert_eq!(json_string("x\"y"), "\"x\\\"y\"");
}

#[test]
fn small_text_helpers() {
    assert_eq!(non_empty("  a "), Some("a".to_string()));
    assert_eq!(non_empty("   "), None);
    assert_eq!(nonce(255), "ff");
    assert_eq!(nonce(0), "0");
    assert_eq!(
        to_discord_asset_image(" https://x/{type}/a%7Btype%7D%7btype%7d "),
        "https://x/480/a480480"
    );
}

#[test]
fn only_known_stream_hosts_are_supported() {
    assert!(is_supported_stream_url(" HTTPS://CHZZK.NAVER.COM/live/x"));
    assert!(is_supported_stream_url("https://www.twitch.tv/x"));
    assert!(is_supported_stream_url("https://youtube.com/watch"));
    assert!(!is_supported_stream_url("https://example.com/x"));
    assert!(!is_supported_stream_url("http://twitch.tv/x"));
}

#[test]
fn builder_keeps_at_most_two_buttons() {
    let activity = PresenceActivity::streaming("n".to_string())
        .button("a".to_string(), "1".to_string())
        .button("b".to_string(), "2".to_string())
        .button("c".to_string(), "3".to_string());
    assert_eq!(activity.buttons.len(), 2);
    assert_eq!(activity.buttons[1].label, "b");
    assert!(activity.kind == ActivityType::Streaming);
    assert!(PresenceActivity::watching("w".to_string()).kind == ActivityType::Watching);
    assert!(PresenceActivity::new("p".to_string()).kind == ActivityType::Playing);
    assert_eq!(ActivityType::Competing.code(), 5);
}

#[test]
fn activity_payload_lists_present_fields_in_order() {
    let activity = PresenceActivity::new("Live".to_string())
        .details("D".to_string())
        .state("S".to_string())
        .timestamps(Some(5), None)
        .button("L".to_string(), "U".to_string());
    assert_eq!(
        build_activity_payload(&config(activity)),
        "{\"type\":0,\"name\":\"Live\",\"details\":\"D\",\"state\":\"S\",\"timestamps\":{\"start\":5},\"buttons\":[{\"label\":\"L\",\"url\":\"U\"}]}"
    );
}

#[test]
fn activity_payload_with_url_assets_and_both_timestamps() {
    let mut assets = ActivityAssets::new();
    assets.large_image = Some("img".to_string());
    assets.small_text = Some("st".to_string());
    let activity = PresenceActivity::listening("N".to_string())
        .timestamps(Some(1), Some(2))
        .url("https://twitch.tv/x".to_string())
        .assets(assets);
    assert_eq!(
        build_activity_payload(&config(activity)),
        "{\"type\":2,\"name\":\"N\",\"timestamps\":{\"start\":1,\"end\":2},\"url\":\"https://twitch.tv/x\",\"assets\":{\"large_image\":\"img\",\"small_text\":\"st\"}}"
    );
    let empty_assets = PresenceActivity::new("E".to_string()).assets(ActivityAssets::new());
    assert_eq!(build_activity_payload(&config(empty_assets)), "{\"type\":0,\"name\":\"E\"}");
}

#[test]
fn command_payloads_wrap_the_activity() {
    let activity = PresenceActivity::new("A".to_string());
    assert_eq!(
        build_set_activity_payload(&config(activity), 42, "ff"),
        "{\"cmd\":\"SET_ACTIVITY\",\"args\":{\"pid\":42,\"activity\":{\"type\":0,\"name\":\"A\"}},\"nonce\":\"ff\"}"
    );
    assert_eq!(
        build_clear_activity_payload(7, "1a"),
        "{\"cmd\":\"SET_ACTIVITY\",\"args\":{\"pid\":7,\"activity\":null},\"nonce\":\"1a\"}"
    );
    assert_eq!(build_handshake_payload("9\"9"), "{\"v\":1,\"client_id\":\"9\\\"9\"}");
}

fn settings(enabled: bool, app_id: &str, token: &str, base: &str) -> PluginSettings {
    let mut s = PluginSettings::default();
    s.discord_presence_enabled = enabled;
    s.discord_application_id = app_id.to_string();
    s.chzzk_authorization_token = token.to_string();
    s.chzzk_api_base_url = base.to_string();
    s
}

#[test]
fn presence_needs_enabled_id_and_token() {
    assert!(presence_prerequisites(&settings(false, "1", "t", "")).err().unwrap() == PresenceSkip::Disabled);
    assert!(
        presence_prerequisites(&settings(true, " ", "t", "")).err().unwrap() == PresenceSkip::MissingApplicationId
    );
    assert!(presence_prerequisites(&settings(true, "1", "", "")).err().unwrap() == PresenceSkip::MissingToken);
    let ok = presence_prerequisites(&settings(true, " 1 ", " t ", " ")).ok().unwrap();
    assert_eq!(ok.application_id, "1");
    assert_eq!(ok.access_token, "t");
    assert_eq!(ok.api_base_url, "https://openapi.chzzk.naver.com");
}

fn live(title: Option<&str>, category: Option<&str>) -> ChzzkLiveSettings {
    ChzzkLiveSettings {
        live_title: title.map(|t| t.to_string()),
        category_type: None,
        category_id: None,
        category_name: category.map(|c| c.to_string()),
        tags: None,
    }
}

fn channel(id: Option<&str>, name: Option<&str>) -> ChzzkUserChannelInfo {
    ChzzkUserChannelInfo { channel_id: id.map(|t| t.to_string()), channel_name: name.map(|t| t.to_string()) }
}

#[test]
fn presence_uses_channel_title_and_category() {
    let c = build_presence_config(
        "app".to_string(),
        "CHZZK Live",
        Some(channel(Some("abc"), Some(" Chan "))),
        Some(live(Some(" Title "), Some("Chess"))),
        Some("https://t/{type}.jpg".to_string()),
        1000,
    );
    assert_eq!(c.application_id, "app");
    let a = c.activity;
    assert_eq!(a.name, "Chan - Title");
    assert_eq!(a.details, Some("Title".to_string()));
    assert_eq!(a.state, Some("카테고리: Chess".to_string()));
    assert_eq!(a.timestamps.start, Some(1000));
    assert_eq!(a.url, Some("https://chzzk.naver.com/live/abc".to_string()));
    assert_eq!(a.buttons.len(), 1);
    assert_eq!(a.buttons[0].label, "치지직 방송 보러가기");
    let assets = a.assets.unwrap();
    assert_eq!(assets.large_image, Some("https://t/480.jpg".to_string()));
    assert_eq!(assets.large_text, Some("Chan - Title".to_string()));
}

#[test]
fn presence_falls_back_without_chzzk_data() {
    let c = build_presence_config("app".to_string(), "  ", None, None, None, 5);
    let a = c.activity;
    assert_eq!(a.name, "CHZZK Live");
    assert_eq!(a.details, Some("치지직 라이브 송출 중".to_string()));
    assert_eq!(a.state, Some("CHZZK".to_string()));
    assert!(a.url.is_none());
    assert!(a.buttons.is_empty());
    assert!(a.assets.is_none());
    let named = build_presence_config("app".to_string(), "My Show", Some(channel(None, Some("Chan"))), None, None, 5);
    assert_eq!(named.activity.name, "My Show");
    assert_eq!(named.activity.state, Some("Chan".to_string()));
    let channel_only = build_presence_config("app".to_string(), "", Some(channel(None, Some("Chan"))), None, None, 5);
    assert_eq!(channel_only.activity.name, "Chan Live");
}

#[test]
fn json_string_reads_back_through_a_json_parser() {
    for text in ["", "plain", "q\"b\\s/", "\n\r\t\u{08}\u{0C}", "\u{01}\u{1F}\u{7F}\u{9F}\u{A0}", "라이브 🎮"] {
        let literal = json_string(text);
        let back: String = serde_json::from_str(&literal).unwrap();
        assert_eq!(back, text);
    }
    assert_eq!(json_string("\u{01}"), "\"\\u0001\"");
}
