//! The JSON document that carries a dock response across the C boundary.

use vstd::prelude::*;
use crate::json::{entries_view, items_view, json_view, JsonValue, JsonView};
use crate::settings::{nul_to_space, sanitize_c_text, LiveDockCategoryEntry, LiveDockResponse};
use crate::text::to_owned_string;

verus! {

/// A text member, safe for a C string.
pub open spec fn text_member(key: Seq<char>, value: Seq<char>) -> (Seq<char>, JsonView) {
    (key, JsonView::Str(nul_to_space(value)))
}

/// The member for an optional text: none where it is absent.
pub open spec fn opt_member(key: Seq<char>, value: Option<String>) -> Seq<(Seq<char>, JsonView)> {
    match value {
        Some(v) => seq![text_member(key, v@)],
        None => Seq::empty(),
    }
}

/// The document of one category: its type, id and name, and its poster
/// where it has one.
pub open spec fn category_json(e: LiveDockCategoryEntry) -> JsonView {
    JsonView::Object(
        seq![
            text_member("categoryType"@, e.category_type@),
            text_member("categoryId"@, e.category_id@),
            text_member("categoryName"@, e.category_name@),
        ] + opt_member("posterImageUrl"@, e.poster_image_url),
    )
}

/// The document of a dock response: `ok` and `status`, then each field that
/// is present, the tags as an array of texts and the categories as an array
/// of objects; every text with NUL characters turned into spaces.
pub open spec fn response_json(r: LiveDockResponse) -> JsonView {
    JsonView::Object(
        seq![("ok"@, JsonView::Bool(r.ok)), text_member("status"@, r.status@)]
            + opt_member("liveTitle"@, r.live_title)
            + opt_member("categoryType"@, r.category_type)
            + opt_member("categoryId"@, r.category_id)
            + opt_member("categoryName"@, r.category_name)
            + opt_member("posterImageUrl"@, r.poster_image_url)
            + tags_member(r.tags)
            + categories_member(r.categories),
    )
}

/// The tags member: an array of texts, where tags are present.
pub open spec fn tags_member(tags: Option<Vec<String>>) -> Seq<(Seq<char>, JsonView)> {
    match tags {
        Some(t) => seq![
            ("tags"@, JsonView::Array(t@.map_values(|s: String| JsonView::Str(nul_to_space(s@))))),
        ],
        None => Seq::empty(),
    }
}

/// The categories member: an array of objects, where categories are present.
pub open spec fn categories_member(categories: Option<Vec<LiveDockCategoryEntry>>) -> Seq<(Seq<char>, JsonView)> {
    match categories {
        Some(c) => seq![
            ("categories"@, JsonView::Array(c@.map_values(|e: LiveDockCategoryEntry| category_json(e)))),
        ],
        None => Seq::empty(),
    }
}

fn push_member(entries: &mut Vec<(String, JsonValue)>, key: &str, value: JsonValue)
    ensures
        entries_view(final(entries)@) == entries_view(old(entries)@).push((key@, json_view(value))),
{
    let ghost before = entries@;
    entries.push((to_owned_string(key), value));
    assert(entries@.drop_last() =~= before);
}

fn push_text(entries: &mut Vec<(String, JsonValue)>, key: &str, value: &str)
    ensures
        entries_view(final(entries)@) == entries_view(old(entries)@).push(text_member(key@, value@)),
{
    push_member(entries, key, JsonValue::Str(sanitize_c_text(value)));
}

fn push_opt_text(entries: &mut Vec<(String, JsonValue)>, key: &str, value: &Option<String>)
    ensures
        entries_view(final(entries)@) == entries_view(old(entries)@) + opt_member(key@, *value),
{
    match value {
        Some(v) => push_text(entries, key, v.as_str()),
        None => {
            assert(entries_view(entries@) + Seq::empty() =~= entries_view(entries@));
        },
    }
}

fn push_item(items: &mut Vec<JsonValue>, value: JsonValue)
    ensures
        items_view(final(items)@) == items_view(old(items)@).push(json_view(value)),
{
    let ghost before = items@;
    items.push(value);
    assert(items@.drop_last() =~= before);
}

/// The document of one category.
pub fn category_json_value(e: &LiveDockCategoryEntry) -> (r: JsonValue)
    ensures
        json_view(r) == category_json(*e),
{
    let mut entries: Vec<(String, JsonValue)> = Vec::new();
    push_text(&mut entries, "categoryType", e.category_type.as_str());
    push_text(&mut entries, "categoryId", e.category_id.as_str());
    push_text(&mut entries, "categoryName", e.category_name.as_str());
    push_opt_text(&mut entries, "posterImageUrl", &e.poster_image_url);
    assert(entries_view(entries@) =~= seq![
        text_member("categoryType"@, e.category_type@),
        text_member("categoryId"@, e.category_id@),
        text_member("categoryName"@, e.category_name@),
    ] + opt_member("posterImageUrl"@, e.poster_image_url));
    JsonValue::Object(entries)
}

/// The document of a dock response (see `response_json`); the caller renders
/// it as JSON text.
pub fn response_json_value(response: &LiveDockResponse) -> (r: JsonValue)
    ensures
        json_view(r) == response_json(*response),
{
    let mut entries: Vec<(String, JsonValue)> = Vec::new();
    push_member(&mut entries, "ok", JsonValue::Bool(response.ok));
    push_text(&mut entries, "status", response.status.as_str());
    let ghost head = entries_view(entries@);
    assert(head =~= seq![("ok"@, JsonView::Bool(response.ok)), text_member("status"@, response.status@)]);
    push_opt_text(&mut entries, "liveTitle", &response.live_title);
    push_opt_text(&mut entries, "categoryType", &response.category_type);
    push_opt_text(&mut entries, "categoryId", &response.category_id);
    push_opt_text(&mut entries, "categoryName", &response.category_name);
    push_opt_text(&mut entries, "posterImageUrl", &response.poster_image_url);
    let ghost fields = entries_view(entries@);
    match &response.tags {
        Some(tags) => {
            let mut items: Vec<JsonValue> = Vec::new();
            let mut i: usize = 0;
            while i < tags.len()
                invariant
                    i <= tags.len(),
                    items_view(items@) =~= tags@.take(i as int).map_values(
                        |s: String| JsonView::Str(nul_to_space(s@)),
                    ),
                decreases tags.len() - i,
            {
                push_item(&mut items, JsonValue::Str(sanitize_c_text(tags[i].as_str())));
                assert(tags@.take(i + 1) =~= tags@.take(i as int).push(tags@[i as int]));
                i += 1;
            }
            assert(tags@.take(tags.len() as int) =~= tags@);
            push_member(&mut entries, "tags", JsonValue::Array(items));
        },
        None => {},
    }
    assert(entries_view(entries@) =~= fields + tags_member(response.tags));
    let ghost with_tags = entries_view(entries@);
    match &response.categories {
        Some(categories) => {
            let mut items: Vec<JsonValue> = Vec::new();
            let mut i: usize = 0;
            while i < categories.len()
                invariant
                    i <= categories.len(),
                    items_view(items@) =~= categories@.take(i as int).map_values(
                        |e: LiveDockCategoryEntry| category_json(e),
                    ),
                decreases categories.len() - i,
            {
                push_item(&mut items, category_json_value(&categories[i]));
                assert(categories@.take(i + 1) =~= categories@.take(i as int).push(categories@[i as int]));
                i += 1;
            }
            assert(categories@.take(categories.len() as int) =~= categories@);
            push_member(&mut entries, "categories", JsonValue::Array(items));
        },
        None => {},
    }
    assert(entries_view(entries@) =~= with_tags + categories_member(response.categories));
    JsonValue::Object(entries)
}

} // verus!
