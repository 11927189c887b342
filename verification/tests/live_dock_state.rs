use obs_chzzk_extension::live_dock::{
    category_relevance_score, find_chars, lex_less, sorted_order, LiveDockBridge,
};
use obs_chzzk_extension::settings::{LiveDockCategoryEntry, LiveDockResponse, PluginSettings};

fn entry(kind: &str, id: &str, name: &str, poster: Option<&str>) -> LiveDockCategoryEntry {
    LiveDockCategoryEntry {
        category_type: kind.to_string(),
        category_id: id.to_string(),
        category_name: name.to_string(),
        poster_image_url: poster.map(|p| p.to_string()),
    }
}

fn linked_settings() -> PluginSettings {
    let mut s = PluginSettings::default();
    s.chzzk_authorization_token = "tok".to_string();
    s.chzzk_auth_status = String::new();
    s
}

fn chars(s: &str) -> Vec<char> {
    s.chars().collect()
}

#[test]
fn relevance_scores_exact_prefix_and_inner_matches() {
    assert_eq!(category_relevance_score(" Chess ", "chess"), 10000);
    assert_eq!(category_relevance_score("che", "Chess"), 7998);
    assert_eq!(category_relevance_score("ess", "Chess"), 5998);
    assert_eq!(category_relevance_score("xyz", "Chess"), 0);
    assert_eq!(category_relevance_score("  ", "Chess"), 0);
    assert_eq!(category_relevance_score("chess", "  "), 0);
    assert_eq!(category_relevance_score("게임", "모바일 게임"), 6000 - 10);
    assert_eq!(category_relevance_score("롤", "롤토체스"), 8000 - 9);
}

#[test]
fn names_compare_like_strings() {
    assert!(lex_less(&chars("abc"), &chars("abd")));
    assert!(lex_less(&chars("ab"), &chars("abc")));
    assert!(!lex_less(&chars("abc"), &chars("abc")));
    assert!(!lex_less(&chars("b"), &chars("abc")));
    assert!(lex_less(&chars("Z"), &chars("a")));
}

#[test]
fn first_occurrence_of_a_text() {
    assert_eq!(find_chars(&chars("banana"), &chars("ana")), Some(1));
    assert_eq!(find_chars(&chars("banana"), &chars("x")), None);
    assert_eq!(find_chars(&chars("ab"), &chars("abc")), None);
    assert_eq!(find_chars(&chars("ab"), &chars("")), Some(0));
}

#[test]
fn sorting_is_by_score_then_name_then_position() {
    let scores = vec![0, 5, 5, 0, 5];
    let names = vec![chars("b"), chars("z"), chars("a"), chars("a"), chars("a")];
    assert_eq!(sorted_order(&scores, &names), vec![2, 4, 1, 3, 0]);
    assert!(sorted_order(&Vec::new(), &Vec::new()).is_empty());
}

fn dock_with_results(query: &str, sort_by_name: bool) -> LiveDockBridge {
    let mut dock = LiveDockBridge::new();
    let mut response = LiveDockResponse::success("Found 3 categories. Select one from the list.");
    response.category_type = Some("GAME".to_string());
    response.category_id = Some("first".to_string());
    response.categories = Some(vec![
        entry("GAME", "mobile-chess", "Mobile Chess", None),
        entry("GAME", "chess", "Chess", Some("chess.png")),
        entry("ETC", "chess-talk", "chess talk", Some("talk.png")),
    ]);
    dock.apply_result(&linked_settings(), Ok(response), query, sort_by_name);
    dock
}

#[test]
fn search_results_are_listed_by_relevance() {
    let dock = dock_with_results("chess", false);
    assert_eq!(dock.category_count, 3);
    assert_eq!(dock.category_result_name(0), "Chess");
    assert_eq!(dock.category_result_name(1), "chess talk");
    assert_eq!(dock.category_result_name(2), "Mobile Chess");
    assert_eq!(dock.category_result_label(1), "chess talk (ETC)");
    assert_eq!(dock.category_result_label(3), "");
    assert_eq!(dock.category_result_id(-1), "");
    assert_eq!(dock.category_name, "Chess");
    assert_eq!(dock.category_id, "chess");
    assert_eq!(dock.poster_image_url, "chess.png");
    assert_eq!(dock.status, "Found 3 categories. Select one from the list.");
    assert!(dock.linked);
    assert_eq!(dock.auth_status, "CHZZK account linked");
}

#[test]
fn search_results_can_be_listed_by_name() {
    let mut dock = dock_with_results("chess", true);
    assert_eq!(dock.category_result_name(0), "Chess");
    assert_eq!(dock.category_result_name(1), "chess talk");
    assert_eq!(dock.category_result_name(2), "Mobile Chess");
    dock.refresh_category_results("mobile", false);
    assert_eq!(dock.category_result_name(0), "Mobile Chess");
    assert_eq!(dock.category_result_poster_url(0), "");
    assert_eq!(dock.category_name, "Mobile Chess");
    dock.select_category(1);
    assert_eq!(dock.category_result_type(1), dock.category_type);
    dock.select_category(7);
    assert_eq!(dock.category_name, dock.category_result_name(1));
}

#[test]
fn an_error_shows_as_the_status() {
    let mut dock = dock_with_results("chess", false);
    dock.apply_result(&PluginSettings::default(), Err("Failed to search category: x".to_string()), "", false);
    assert_eq!(dock.status, "Failed to search category: x");
    assert!(!dock.linked);
    assert_eq!(dock.auth_status, "CHZZK account not linked");
    assert_eq!(dock.category_count, 3);
}

#[test]
fn loaded_fields_replace_the_shown_ones() {
    let mut dock = LiveDockBridge::new();
    dock.poster_image_url = "old.png".to_string();
    let mut response = LiveDockResponse::success("Loaded current live setting");
    response.live_title = Some("Title".to_string());
    response.tags = Some(vec!["a".to_string(), "b".to_string()]);
    response.category_id = Some("chess".to_string());
    dock.load_current(&linked_settings(), Ok(response));
    assert_eq!(dock.live_title, "Title");
    assert_eq!(dock.tags_text, "a, b");
    assert_eq!(dock.category_id, "chess");
    assert_eq!(dock.poster_image_url, "");
    assert_eq!(dock.status, "Loaded current live setting");
}

#[test]
fn an_empty_query_clears_the_results() {
    let mut dock = dock_with_results("chess", false);
    dock.search_category("   ", false, &linked_settings(), None);
    assert_eq!(dock.status, "Category Search Query is empty");
    assert_eq!(dock.category_count, 0);
    assert_eq!(dock.category_result_name(0), "");
    assert_eq!(dock.category_name, "");
    assert_eq!(dock.category_id, "");
}

#[test]
fn the_stored_status_wins_over_the_token() {
    let mut dock = LiveDockBridge::new();
    let mut s = PluginSettings::default();
    s.chzzk_auth_status = "custom status".to_string();
    dock.refresh_auth_state(&s);
    assert_eq!(dock.auth_status, "custom status");
    assert!(!dock.linked);
}
