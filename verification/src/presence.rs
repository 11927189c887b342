//! Discord Rich Presence: the activity model, its JSON payloads, and the
//! activity built from the CHZZK channel and live settings.

use vstd::prelude::*;

use crate::chzzk::{opt_view, ChzzkLiveSettings, ChzzkUserChannelInfo, DEFAULT_API_BASE};
use crate::settings::{PluginSettings, PluginSettingsView, DEFAULT_ACTIVITY_NAME};
use crate::text::{
    ascii_lower_seq, ascii_lowercase, blank, chars_of, decimal, digit_char, hex_lower, is_blank,
    join, join_strings, push_char, push_decimal, push_hex_lower, push_str, replace_all,
    replace_str, starts_with, str_eq, to_owned_string, trim, trim_string, views,
};

verus! {

/// Discord activity types.
#[derive(PartialEq, Eq, Structural, Clone, Copy)]
pub enum ActivityType {
    Playing,
    Streaming,
    Listening,
    Watching,
    Custom,
    Competing,
}

/// The wire number of an activity type.
pub open spec fn activity_code(k: ActivityType) -> u8 {
    match k {
        ActivityType::Playing => 0,
        ActivityType::Streaming => 1,
        ActivityType::Listening => 2,
        ActivityType::Watching => 3,
        ActivityType::Custom => 4,
        ActivityType::Competing => 5,
    }
}

impl ActivityType {
    /// The wire number of the type.
    pub fn code(&self) -> (n: u8)
        ensures
            n == activity_code(*self),
    {
        match self {
            ActivityType::Playing => 0,
            ActivityType::Streaming => 1,
            ActivityType::Listening => 2,
            ActivityType::Watching => 3,
            ActivityType::Custom => 4,
            ActivityType::Competing => 5,
        }
    }
}

/// Start and end of an activity, in Unix milliseconds.
pub struct ActivityTimestamps {
    pub start: Option<u64>,
    pub end: Option<u64>,
}

/// Images and their hover texts.
pub struct ActivityAssets {
    pub large_image: Option<String>,
    pub large_text: Option<String>,
    pub small_image: Option<String>,
    pub small_text: Option<String>,
}

impl ActivityAssets {
    /// No images.
    pub fn new() -> (a: Self)
        ensures
            a.large_image is None,
            a.large_text is None,
            a.small_image is None,
            a.small_text is None,
    {
        ActivityAssets { large_image: None, large_text: None, small_image: None, small_text: None }
    }
}

/// A link button.
pub struct ActivityButton {
    pub label: String,
    pub url: String,
}

/// A Discord activity.
pub struct PresenceActivity {
    pub name: String,
    pub kind: ActivityType,
    pub details: Option<String>,
    pub state: Option<String>,
    pub url: Option<String>,
    pub timestamps: ActivityTimestamps,
    pub assets: Option<ActivityAssets>,
    pub buttons: Vec<ActivityButton>,
}

/// The application id and the activity to show.
pub struct PresenceConfig {
    pub application_id: String,
    pub activity: PresenceActivity,
}

/// Commands to the presence worker.
pub enum PresenceCommand {
    Stop,
}

/// The views of the buttons.
pub open spec fn buttons_view(b: Seq<ActivityButton>) -> Seq<(Seq<char>, Seq<char>)> {
    b.map_values(|x: ActivityButton| (x.label@, x.url@))
}

impl PresenceActivity {
    /// A playing activity with a name and nothing else.
    pub fn new(name: String) -> (a: Self)
        ensures
            a.name == name,
            a.kind == ActivityType::Playing,
            a.details is None,
            a.state is None,
            a.url is None,
            a.timestamps.start is None,
            a.timestamps.end is None,
            a.assets is None,
            a.buttons@.len() == 0,
    {
        PresenceActivity {
            name,
            kind: ActivityType::Playing,
            details: None,
            state: None,
            url: None,
            timestamps: ActivityTimestamps { start: None, end: None },
            assets: None,
            buttons: Vec::new(),
        }
    }

    /// A playing activity.
    pub fn playing(name: String) -> (a: Self)
        ensures
            a.name == name,
            a.kind == ActivityType::Playing,
            a.details is None && a.state is None && a.url is None && a.assets is None,
            a.timestamps.start is None && a.timestamps.end is None && a.buttons@.len() == 0,
    {
        Self::new(name).activity_type(ActivityType::Playing)
    }

    /// A streaming activity.
    pub fn streaming(name: String) -> (a: Self)
        ensures
            a.name == name,
            a.kind == ActivityType::Streaming,
            a.details is None && a.state is None && a.url is None && a.assets is None,
            a.timestamps.start is None && a.timestamps.end is None && a.buttons@.len() == 0,
    {
        Self::new(name).activity_type(ActivityType::Streaming)
    }

    /// A listening activity.
    pub fn listening(name: String) -> (a: Self)
        ensures
            a.name == name,
            a.kind == ActivityType::Listening,
            a.details is None && a.state is None && a.url is None && a.assets is None,
            a.timestamps.start is None && a.timestamps.end is None && a.buttons@.len() == 0,
    {
        Self::new(name).activity_type(ActivityType::Listening)
    }

    /// A watching activity.
    pub fn watching(name: String) -> (a: Self)
        ensures
            a.name == name,
            a.kind == ActivityType::Watching,
            a.details is None && a.state is None && a.url is None && a.assets is None,
            a.timestamps.start is None && a.timestamps.end is None && a.buttons@.len() == 0,
    {
        Self::new(name).activity_type(ActivityType::Watching)
    }

    /// Sets the type.
    pub fn activity_type(self, kind: ActivityType) -> (a: Self)
        ensures
            a == (PresenceActivity { kind, ..self }),
    {
        PresenceActivity { kind, ..self }
    }

    /// Sets the details line.
    pub fn details(self, details: String) -> (a: Self)
        ensures
            a == (PresenceActivity { details: Some(details), ..self }),
    {
        PresenceActivity { details: Some(details), ..self }
    }

    /// Sets the state line.
    pub fn state(self, state: String) -> (a: Self)
        ensures
            a == (PresenceActivity { state: Some(state), ..self }),
    {
        PresenceActivity { state: Some(state), ..self }
    }

    /// Sets the stream URL.
    pub fn url(self, url: String) -> (a: Self)
        ensures
            a == (PresenceActivity { url: Some(url), ..self }),
    {
        PresenceActivity { url: Some(url), ..self }
    }

    /// Sets the timestamps.
    pub fn timestamps(self, start: Option<u64>, end: Option<u64>) -> (a: Self)
        ensures
            a == (PresenceActivity { timestamps: ActivityTimestamps { start, end }, ..self }),
    {
        PresenceActivity { timestamps: ActivityTimestamps { start, end }, ..self }
    }

    /// Sets the images.
    pub fn assets(self, assets: ActivityAssets) -> (a: Self)
        ensures
            a == (PresenceActivity { assets: Some(assets), ..self }),
    {
        PresenceActivity { assets: Some(assets), ..self }
    }

    /// Adds a button, unless there are two already; Discord shows at most
    /// two.
    pub fn button(self, label: String, url: String) -> (a: Self)
        ensures
            self.buttons@.len() < 2 ==> a == (PresenceActivity {
                buttons: a.buttons,
                ..self
            }) && a.buttons@ == self.buttons@.push(ActivityButton { label, url }),
            self.buttons@.len() >= 2 ==> a == self,
    {
        let mut a = self;
        if a.buttons.len() < 2 {
            a.buttons.push(ActivityButton { label, url });
        }
        a
    }
}

// ---------------------------------------------------------------------------
// JSON text
// ---------------------------------------------------------------------------

/// Control characters (general category Cc), as `char::is_control` says.
pub open spec fn is_control(c: char) -> bool {
    (c as u32) <= 0x1F || (0x7F <= (c as u32) && (c as u32) <= 0x9F)
}

/// Four lower-case hex digits of a number below 65536.
pub open spec fn hex4(u: u32) -> Seq<char> {
    seq![
        digit_char(((u / 4096) % 16) as nat),
        digit_char(((u / 256) % 16) as nat),
        digit_char(((u / 16) % 16) as nat),
        digit_char((u % 16) as nat),
    ]
}

/// The JSON escape of one character.
pub open spec fn escape_char(c: char) -> Seq<char> {
    if c == '"' {
        seq!['\\', '"']
    } else if c == '\\' {
        seq!['\\', '\\']
    } else if c == '\n' {
        seq!['\\', 'n']
    } else if c == '\r' {
        seq!['\\', 'r']
    } else if c == '\t' {
        seq!['\\', 't']
    } else if c == '\u{08}' {
        seq!['\\', 'b']
    } else if c == '\u{0C}' {
        seq!['\\', 'f']
    } else if is_control(c) {
        seq!['\\', 'u'] + hex4(c as u32)
    } else {
        seq![c]
    }
}

/// The JSON escape of a text.
pub open spec fn escaped(s: Seq<char>) -> Seq<char>
    decreases s.len(),
{
    if s.len() == 0 {
        Seq::empty()
    } else {
        escaped(s.drop_last()) + escape_char(s.last())
    }
}

/// A JSON string literal.
pub open spec fn json_text(s: Seq<char>) -> Seq<char> {
    seq!['"'] + escaped(s) + seq!['"']
}

/// The value of a JSON hex digit (`0-9`, `a-f`, `A-F`).
pub open spec fn hex_char_value(c: char) -> Option<int> {
    let u = c as u32;
    if 48 <= u <= 57 {
        Some(u - 48)
    } else if 97 <= u <= 102 {
        Some(u - 87)
    } else if 65 <= u <= 70 {
        Some(u - 55)
    } else {
        None
    }
}

/// The number that four JSON hex digits spell.
pub open spec fn hex4_value(t: Seq<char>) -> Option<int> {
    match (hex_char_value(t[0]), hex_char_value(t[1]), hex_char_value(t[2]), hex_char_value(t[3])) {
        (Some(a), Some(b), Some(c), Some(d)) => Some(a * 4096 + b * 256 + c * 16 + d),
        _ => None,
    }
}

/// The character that a JSON two-character escape `\x` stands for.
pub open spec fn short_escape(c: char) -> Option<char> {
    if c == '"' {
        Some('"')
    } else if c == '\\' {
        Some('\\')
    } else if c == '/' {
        Some('/')
    } else if c == 'b' {
        Some('\u{08}')
    } else if c == 'f' {
        Some('\u{0C}')
    } else if c == 'n' {
        Some('\n')
    } else if c == 'r' {
        Some('\r')
    } else if c == 't' {
        Some('\t')
    } else {
        None
    }
}

/// `c` in front of a decoded text, where there is one.
pub open spec fn prepend(c: char, rest: Option<Seq<char>>) -> Option<Seq<char>> {
    match rest {
        Some(r) => Some(seq![c] + r),
        None => None,
    }
}

/// The text that the rest of a JSON string literal denotes, after its
/// opening quote (RFC 8259): the literal ends at its closing quote, which
/// must be its last character; `\` starts a short escape or a `\uXXXX`
/// escape, a surrogate pair standing for one character; control characters
/// below U+0020 must be escaped. `None` where `t` is no such rest.
pub open spec fn string_literal_rest(t: Seq<char>) -> Option<Seq<char>>
    decreases t.len(),
{
    if t.len() == 0 {
        None
    } else if t[0] == '"' {
        if t.len() == 1 {
            Some(Seq::empty())
        } else {
            None
        }
    } else if t[0] == '\\' {
        if t.len() < 2 {
            None
        } else if short_escape(t[1]) is Some {
            prepend(short_escape(t[1])->0, string_literal_rest(t.skip(2)))
        } else if t[1] == 'u' && t.len() >= 6 {
            match hex4_value(t.subrange(2, 6)) {
                None => None,
                Some(code) => if 0xD800 <= code < 0xDC00 {
                    if t.len() >= 12 && t[6] == '\\' && t[7] == 'u' {
                        match hex4_value(t.subrange(8, 12)) {
                            Some(low) => if 0xDC00 <= low < 0xE000 {
                                prepend(
                                    (0x10000 + (code - 0xD800) * 1024 + (low - 0xDC00)) as char,
                                    string_literal_rest(t.skip(12)),
                                )
                            } else {
                                None
                            },
                            None => None,
                        }
                    } else {
                        None
                    }
                } else if 0xDC00 <= code < 0xE000 {
                    None
                } else {
                    prepend(code as char, string_literal_rest(t.skip(6)))
                },
            }
        } else {
            None
        }
    } else if (t[0] as u32) < 0x20 {
        None
    } else {
        prepend(t[0], string_literal_rest(t.skip(1)))
    }
}

/// The text that a JSON string literal denotes, or `None` where `t` is not
/// exactly one JSON string literal.
pub open spec fn string_literal_value(t: Seq<char>) -> Option<Seq<char>> {
    if t.len() >= 1 && t[0] == '"' {
        string_literal_rest(t.skip(1))
    } else {
        None
    }
}

/// Escaping text piece by piece escapes the whole.
pub proof fn lemma_escaped_append(a: Seq<char>, b: Seq<char>)
    ensures
        escaped(a + b) == escaped(a) + escaped(b),
    decreases b.len(),
{
    if b.len() == 0 {
        assert(a + b == a);
        assert(escaped(a) + escaped(b) == escaped(a));
    } else {
        lemma_escaped_append(a, b.drop_last());
        assert((a + b).drop_last() == a + b.drop_last());
        assert((a + b).last() == b.last());
    }
}

/// The hex digits that `hex4` writes spell the number.
proof fn lemma_hex4_value(u: u32)
    requires
        u <= 0x9F,
    ensures
        hex4_value(hex4(u)) == Some(u as int),
{
    let d = hex4(u);
    assert(((u / 4096) % 16) == 0);
    assert(((u / 256) % 16) == 0);
    let hi = ((u / 16) % 16) as nat;
    let lo = (u % 16) as nat;
    assert(hi < 10);
    assert(hex_char_value(d[0]) == Some(0int));
    assert(hex_char_value(d[1]) == Some(0int));
    assert(hex_char_value(d[2]) == Some(hi as int));
    if lo < 10 {
        assert(hex_char_value(d[3]) == Some(lo as int));
    } else {
        assert(hex_char_value(d[3]) == Some(lo as int));
    }
    assert(u == hi * 16 + lo);
}

/// The escape of one character, followed by the rest of a literal, decodes
/// to that character in front of what the rest decodes to.
proof fn lemma_escape_char_decodes(c: char, tail: Seq<char>)
    ensures
        string_literal_rest(escape_char(c) + tail) == prepend(c, string_literal_rest(tail)),
{
    let t = escape_char(c) + tail;
    if c == '"' || c == '\\' || c == '\n' || c == '\r' || c == '\t' || c == '\u{08}' || c == '\u{0C}' {
        assert(t.skip(2) == tail);
    } else if is_control(c) {
        let u = c as u32;
        lemma_hex4_value(u);
        assert(t.subrange(2, 6) == hex4(u));
        assert(t.skip(6) == tail);
        assert((u as int) as char == c);
    } else {
        assert(t.skip(1) == tail);
    }
}

/// Escaped text, followed by the rest of a literal, decodes to that text
/// in front of what the rest decodes to.
proof fn lemma_escaped_decodes(s: Seq<char>, tail: Seq<char>)
    ensures
        string_literal_rest(escaped(s) + tail) == match string_literal_rest(tail) {
            Some(r) => Some(s + r),
            None => None,
        },
    decreases s.len(),
{
    if s.len() > 0 {
        let c = s[0];
        let rest = s.drop_first();
        assert(s == seq![c] + rest);
        lemma_escaped_append(seq![c], rest);
        assert(seq![c].drop_last() == Seq::<char>::empty());
        assert(seq![c].last() == c);
        assert(escaped(Seq::<char>::empty()) == Seq::<char>::empty());
        assert(Seq::<char>::empty() + escape_char(c) == escape_char(c));
        assert(escaped(seq![c]) == escape_char(c));
        lemma_escaped_decodes(rest, tail);
        lemma_escape_char_decodes(c, escaped(rest) + tail);
        assert(escaped(s) + tail == escape_char(c) + (escaped(rest) + tail));
        match string_literal_rest(tail) {
            Some(r) => {
                assert(seq![c] + (rest + r) == s + r);
            },
            None => {},
        }
    } else {
        assert(escaped(s) + tail == tail);
        match string_literal_rest(tail) {
            Some(r) => {
                assert(s + r == r);
            },
            None => {},
        }
    }
}

/// What `json_string` writes is exactly one JSON string literal, and it
/// denotes the text it was given: any JSON parser reads back the text.
pub proof fn lemma_json_text_round_trip(s: Seq<char>)
    ensures
        string_literal_value(json_text(s)) == Some(s),
{
    let t = json_text(s);
    assert(t.skip(1) == escaped(s) + seq!['"']);
    lemma_escaped_decodes(s, seq!['"']);
    assert(string_literal_rest(seq!['"']) == Some(Seq::<char>::empty()));
    assert(s + Seq::<char>::empty() == s);
}

/// Appends the JSON escape of one character.
fn push_escaped_char(out: &mut String, c: char)
    ensures
        final(out)@ == old(out)@ + escape_char(c),
{
    let u = c as u32;
    if c == '"' {
        push_char(out, '\\');
        push_char(out, '"');
    } else if c == '\\' {
        push_char(out, '\\');
        push_char(out, '\\');
    } else if c == '\n' {
        push_char(out, '\\');
        push_char(out, 'n');
    } else if c == '\r' {
        push_char(out, '\\');
        push_char(out, 'r');
    } else if c == '\t' {
        push_char(out, '\\');
        push_char(out, 't');
    } else if c == '\u{08}' {
        push_char(out, '\\');
        push_char(out, 'b');
    } else if c == '\u{0C}' {
        push_char(out, '\\');
        push_char(out, 'f');
    } else if u <= 0x1F || (0x7F <= u && u <= 0x9F) {
        push_char(out, '\\');
        push_char(out, 'u');
        push_char(out, crate::text::digit_to_char(((u / 4096) % 16) as u8));
        push_char(out, crate::text::digit_to_char(((u / 256) % 16) as u8));
        push_char(out, crate::text::digit_to_char(((u / 16) % 16) as u8));
        push_char(out, crate::text::digit_to_char((u % 16) as u8));
    } else {
        push_char(out, c);
    }
}


/// The JSON escape of a text.
pub fn json_escape(value: &str) -> (r: String)
    ensures
        r@ == escaped(value@),
{
    let v = chars_of(value);
    let mut r = String::new();
    let mut i: usize = 0;
    while i < v.len()
        invariant
            v@ == value@,
            i <= v.len(),
            r@ == escaped(v@.subrange(0, i as int)),
        decreases v.len() - i,
    {
        assert(v@.subrange(0, i + 1).drop_last() == v@.subrange(0, i as int));
        push_escaped_char(&mut r, v[i]);
        i += 1;
    }
    assert(v@.subrange(0, v@.len() as int) == v@);
    r
}

/// A JSON string literal of a text.
pub fn json_string(value: &str) -> (r: String)
    ensures
        r@ == json_text(value@),
{
    let mut r = String::new();
    push_char(&mut r, '"');
    let e = json_escape(value);
    push_str(&mut r, e.as_str());
    push_char(&mut r, '"');
    r
}

/// A trimmed, non-blank text, or `None`.
pub open spec fn non_blank(value: Seq<char>) -> Option<Seq<char>> {
    if blank(value) {
        None
    } else {
        Some(trim(value))
    }
}

/// A trimmed, non-blank text, or `None`.
pub fn non_empty(value: &str) -> (r: Option<String>)
    ensures
        opt_view(r) == non_blank(value@),
{
    if is_blank(value) {
        None
    } else {
        Some(trim_string(value))
    }
}

/// An image URL for Discord: the `{type}` size placeholder, plain or
/// percent-encoded, replaced by `480`.
pub open spec fn discord_asset_image(value: Seq<char>) -> Seq<char> {
    replace_all(
        replace_all(replace_all(trim(value), "{type}"@, "480"@), "%7Btype%7D"@, "480"@),
        "%7btype%7d"@,
        "480"@,
    )
}

/// An image URL for Discord.
pub fn to_discord_asset_image(value: &str) -> (r: String)
    ensures
        r@ == discord_asset_image(value@),
{
    proof {
        reveal_strlit("{type}");
        reveal_strlit("%7Btype%7D");
        reveal_strlit("%7btype%7d");
    }
    let t = trim_string(value);
    let a = replace_str(t.as_str(), "{type}", "480");
    let b = replace_str(a.as_str(), "%7Btype%7D", "480");
    replace_str(b.as_str(), "%7btype%7d", "480")
}

/// Whether a URL is a Twitch, YouTube or CHZZK page, ignoring ASCII case
/// and surrounding whitespace.
pub open spec fn supported_stream_url(url: Seq<char>) -> bool {
    let n = ascii_lower_seq(trim(url));
    ||| "https://twitch.tv/"@.is_prefix_of(n)
    ||| "https://www.twitch.tv/"@.is_prefix_of(n)
    ||| "https://youtube.com/"@.is_prefix_of(n)
    ||| "https://www.youtube.com/"@.is_prefix_of(n)
    ||| "https://chzzk.naver.com/"@.is_prefix_of(n)
}

/// Whether a URL is a Twitch, YouTube or CHZZK page.
pub fn is_supported_stream_url(url: &str) -> (b: bool)
    ensures
        b == supported_stream_url(url@),
{
    let t = trim_string(url);
    let lower = ascii_lowercase(t.as_str());
    let v = chars_of(lower.as_str());
    starts_with(&v, "https://twitch.tv/") || starts_with(&v, "https://www.twitch.tv/") || starts_with(
        &v,
        "https://youtube.com/",
    ) || starts_with(&v, "https://www.youtube.com/") || starts_with(&v, "https://chzzk.naver.com/")
}

/// A request nonce: the time in Unix milliseconds, in lower-case hex.
pub fn nonce(now_ms: u64) -> (r: String)
    ensures
        r@ == hex_lower(now_ms as nat),
{
    let mut r = String::new();
    push_hex_lower(&mut r, now_ms);
    r
}

// ---------------------------------------------------------------------------
// Payloads
// ---------------------------------------------------------------------------

/// `name: value` as a JSON member, where the value is present.
pub open spec fn opt_member(name: Seq<char>, value: Option<Seq<char>>) -> Seq<Seq<char>> {
    match value {
        Some(v) => seq![name + json_text(v)],
        None => Seq::empty(),
    }
}

/// The members of the timestamps object.
pub open spec fn timestamp_members(t: ActivityTimestamps) -> Seq<Seq<char>> {
    (match t.start {
        Some(s) => seq!["\"start\":"@ + decimal(s as nat)],
        None => Seq::empty(),
    }) + (match t.end {
        Some(e) => seq!["\"end\":"@ + decimal(e as nat)],
        None => Seq::empty(),
    })
}

/// The members of the assets object.
pub open spec fn asset_members(a: ActivityAssets) -> Seq<Seq<char>> {
    opt_member("\"large_image\":"@, opt_view(a.large_image)) + opt_member(
        "\"large_text\":"@,
        opt_view(a.large_text),
    ) + opt_member("\"small_image\":"@, opt_view(a.small_image)) + opt_member(
        "\"small_text\":"@,
        opt_view(a.small_text),
    )
}

/// The asset fields of an activity, each by its JSON key, in the order the
/// assets object lists them: the large image, its text, the small image,
/// its text.
pub open spec fn asset_fields(a: ActivityAssets) -> Seq<(Seq<char>, Option<Seq<char>>)> {
    seq![
        ("large_image"@, opt_view(a.large_image)),
        ("large_text"@, opt_view(a.large_text)),
        ("small_image"@, opt_view(a.small_image)),
        ("small_text"@, opt_view(a.small_text)),
    ]
}

/// The JSON member `"key":"value"` of a present asset field.
pub open spec fn asset_field_member(f: (Seq<char>, Option<Seq<char>>)) -> Seq<char> {
    "\""@ + f.0 + "\":"@ + json_text(f.1->0)
}

/// The assets object holds a member for every present asset field and for
/// no other, in the fields' order, each with its JSON key and its value as
/// a JSON string.
pub proof fn lemma_asset_members_are_the_present_fields(a: ActivityAssets)
    ensures
        asset_members(a) == asset_fields(a).filter(|f: (Seq<char>, Option<Seq<char>>)| f.1 is Some).map_values(
            |f: (Seq<char>, Option<Seq<char>>)| asset_field_member(f),
        ),
{
    reveal_strlit("\"large_image\":");
    reveal_strlit("\"large_text\":");
    reveal_strlit("\"small_image\":");
    reveal_strlit("\"small_text\":");
    reveal_strlit("large_image");
    reveal_strlit("large_text");
    reveal_strlit("small_image");
    reveal_strlit("small_text");
    reveal_strlit("\"");
    reveal_strlit("\":");
    let pred = |f: (Seq<char>, Option<Seq<char>>)| f.1 is Some;
    let g = |f: (Seq<char>, Option<Seq<char>>)| asset_field_member(f);
    let fs = asset_fields(a);
    assert("\"large_image\":"@ =~= "\""@ + "large_image"@ + "\":"@);
    assert("\"large_text\":"@ =~= "\""@ + "large_text"@ + "\":"@);
    assert("\"small_image\":"@ =~= "\""@ + "small_image"@ + "\":"@);
    assert("\"small_text\":"@ =~= "\""@ + "small_text"@ + "\":"@);
    let e = Seq::<(Seq<char>, Option<Seq<char>>)>::empty();
    assert(fs =~= e.push(fs[0]).push(fs[1]).push(fs[2]).push(fs[3]));
    lemma_present_fields_step(e, fs[0]);
    lemma_present_fields_step(e.push(fs[0]), fs[1]);
    lemma_present_fields_step(e.push(fs[0]).push(fs[1]), fs[2]);
    lemma_present_fields_step(e.push(fs[0]).push(fs[1]).push(fs[2]), fs[3]);
    reveal(Seq::filter);
    assert(e.filter(pred) =~= e);
    assert(e.filter(pred).map_values(g) =~= Seq::<Seq<char>>::empty());
    let m0 = opt_member("\"large_image\":"@, opt_view(a.large_image));
    let m1 = opt_member("\"large_text\":"@, opt_view(a.large_text));
    let m2 = opt_member("\"small_image\":"@, opt_view(a.small_image));
    let m3 = opt_member("\"small_text\":"@, opt_view(a.small_text));
    assert(Seq::<Seq<char>>::empty() + m0 == m0);
    assert(asset_members(a) == m0 + m1 + m2 + m3);
}

/// Filtering the present fields and writing their members, one field at a
/// time: a present field adds its member, an absent one nothing.
proof fn lemma_present_fields_step(fs: Seq<(Seq<char>, Option<Seq<char>>)>, f: (Seq<char>, Option<Seq<char>>))
    ensures
        fs.push(f).filter(|f: (Seq<char>, Option<Seq<char>>)| f.1 is Some).map_values(
            |f: (Seq<char>, Option<Seq<char>>)| asset_field_member(f),
        ) == fs.filter(|f: (Seq<char>, Option<Seq<char>>)| f.1 is Some).map_values(
            |f: (Seq<char>, Option<Seq<char>>)| asset_field_member(f),
        ) + opt_member("\""@ + f.0 + "\":"@, f.1),
{
    let pred = |f: (Seq<char>, Option<Seq<char>>)| f.1 is Some;
    let g = |f: (Seq<char>, Option<Seq<char>>)| asset_field_member(f);
    fs.lemma_filter_push(f, pred);
    if f.1 is Some {
        assert(fs.filter(pred).push(f).map_values(g) =~= fs.filter(pred).map_values(g) + seq![g(f)]);
    } else {
        assert(fs.filter(pred).map_values(g) + Seq::<Seq<char>>::empty() =~= fs.filter(pred).map_values(g));
    }
}

/// Where the assets carry a large text, the assets object holds the member
/// `"large_text":` with a JSON string that reads back as that text.
pub proof fn lemma_large_text_is_sent(a: ActivityAssets)
    requires
        a.large_text is Some,
    ensures
        exists|i: int| 0 <= i < asset_members(a).len() && #[trigger] asset_members(a)[i] == "\"large_text\":"@
            + json_text(a.large_text->0@),
        string_literal_value(json_text(a.large_text->0@)) == Some(a.large_text->0@),
{
    let m0 = opt_member("\"large_image\":"@, opt_view(a.large_image));
    let i = m0.len() as int;
    assert(asset_members(a)[i] == "\"large_text\":"@ + json_text(a.large_text->0@));
    lemma_json_text_round_trip(a.large_text->0@);
}

/// The JSON object of one button.
pub open spec fn button_object(b: (Seq<char>, Seq<char>)) -> Seq<char> {
    "{\"label\":"@ + json_text(b.0) + ",\"url\":"@ + json_text(b.1) + "}"@
}

/// The members of an activity object, in order.
pub open spec fn activity_members(a: PresenceActivity) -> Seq<Seq<char>> {
    let bv = buttons_view(a.buttons@);
    seq!["\"type\":"@ + decimal(activity_code(a.kind) as nat), "\"name\":"@ + json_text(a.name@)]
        + opt_member("\"details\":"@, opt_view(a.details)) + opt_member(
        "\"state\":"@,
        opt_view(a.state),
    ) + (if a.timestamps.start is Some || a.timestamps.end is Some {
        seq!["\"timestamps\":{"@ + join(timestamp_members(a.timestamps), ","@) + "}"@]
    } else {
        Seq::empty()
    }) + opt_member("\"url\":"@, opt_view(a.url)) + (match a.assets {
        Some(assets) => if asset_members(assets).len() > 0 {
            seq!["\"assets\":{"@ + join(asset_members(assets), ","@) + "}"@]
        } else {
            Seq::empty()
        },
        None => Seq::empty(),
    }) + (if bv.len() > 0 {
        seq![
            "\"buttons\":["@ + join(
                bv.take(if bv.len() < 2 { bv.len() as int } else { 2 }).map_values(
                    |b: (Seq<char>, Seq<char>)| button_object(b),
                ),
                ","@,
            ) + "]"@,
        ]
    } else {
        Seq::empty()
    })
}

/// The activity object of a presence.
pub open spec fn activity_json(a: PresenceActivity) -> Seq<char> {
    "{"@ + join(activity_members(a), ","@) + "}"@
}

fn push_view(fields: &mut Vec<String>, s: String)
    ensures
        views(final(fields)@) == views(old(fields)@).push(s@),
{
    fields.push(s);
    assert(views(fields@) =~= views(old(fields)@).push(s@));
}

fn member(name: &str, value: &str) -> (r: String)
    ensures
        r@ == name@ + json_text(value@),
{
    let mut r = to_owned_string(name);
    let j = json_string(value);
    push_str(&mut r, j.as_str());
    r
}

fn push_opt_member(fields: &mut Vec<String>, name: &str, value: &Option<String>)
    ensures
        views(final(fields)@) == views(old(fields)@) + opt_member(name@, opt_view(*value)),
{
    match value {
        Some(v) => {
            let m = member(name, v.as_str());
            push_view(fields, m);
            assert(views(fields@) =~= views(old(fields)@) + opt_member(name@, opt_view(*value)));
        },
        None => {
            assert(views(fields@) =~= views(old(fields)@) + opt_member(name@, opt_view(*value)));
        },
    }
}

fn decimal_member(name: &str, n: u64) -> (r: String)
    ensures
        r@ == name@ + decimal(n as nat),
{
    let mut r = to_owned_string(name);
    push_decimal(&mut r, n);
    r
}

fn braced(open: &str, members: &Vec<String>, close: &str) -> (r: String)
    ensures
        r@ == open@ + join(views(members@), ","@) + close@,
{
    let mut r = to_owned_string(open);
    let j = join_strings(members, ",");
    push_str(&mut r, j.as_str());
    push_str(&mut r, close);
    r
}

/// The timestamps part of an activity's members.
pub open spec fn timestamps_part(t: ActivityTimestamps) -> Seq<Seq<char>> {
    if t.start is Some || t.end is Some {
        seq!["\"timestamps\":{"@ + join(timestamp_members(t), ","@) + "}"@]
    } else {
        Seq::empty()
    }
}

/// The assets part of an activity's members.
pub open spec fn assets_part(a: Option<ActivityAssets>) -> Seq<Seq<char>> {
    match a {
        Some(assets) => if asset_members(assets).len() > 0 {
            seq!["\"assets\":{"@ + join(asset_members(assets), ","@) + "}"@]
        } else {
            Seq::empty()
        },
        None => Seq::empty(),
    }
}

/// The buttons part of an activity's members: at most two buttons.
pub open spec fn buttons_part(bv: Seq<(Seq<char>, Seq<char>)>) -> Seq<Seq<char>> {
    if bv.len() > 0 {
        seq![
            "\"buttons\":["@ + join(
                bv.take(if bv.len() < 2 { bv.len() as int } else { 2 }).map_values(
                    |b: (Seq<char>, Seq<char>)| button_object(b),
                ),
                ","@,
            ) + "]"@,
        ]
    } else {
        Seq::empty()
    }
}

proof fn lemma_activity_members(a: PresenceActivity)
    ensures
        activity_members(a) == seq![
            "\"type\":"@ + decimal(activity_code(a.kind) as nat),
            "\"name\":"@ + json_text(a.name@),
        ] + opt_member("\"details\":"@, opt_view(a.details)) + opt_member(
            "\"state\":"@,
            opt_view(a.state),
        ) + timestamps_part(a.timestamps) + opt_member("\"url\":"@, opt_view(a.url)) + assets_part(
            a.assets,
        ) + buttons_part(buttons_view(a.buttons@)),
{
}

fn timestamps_members_of(t: &ActivityTimestamps) -> (r: Vec<String>)
    ensures
        views(r@) == timestamps_part(*t),
{
    let mut fields: Vec<String> = Vec::new();
    if t.start.is_some() || t.end.is_some() {
        let mut ts: Vec<String> = Vec::new();
        match t.start {
            Some(start) => push_view(&mut ts, decimal_member("\"start\":", start)),
            None => {},
        }
        match t.end {
            Some(end) => push_view(&mut ts, decimal_member("\"end\":", end)),
            None => {},
        }
        assert(views(ts@) =~= timestamp_members(*t));
        push_view(&mut fields, braced("\"timestamps\":{", &ts, "}"));
    }
    assert(views(fields@) =~= timestamps_part(*t));
    fields
}

fn assets_members_of(a: &Option<ActivityAssets>) -> (r: Vec<String>)
    ensures
        views(r@) == assets_part(*a),
{
    let mut fields: Vec<String> = Vec::new();
    match a {
        Some(assets) => {
            let mut af: Vec<String> = Vec::new();
            push_opt_member(&mut af, "\"large_image\":", &assets.large_image);
            push_opt_member(&mut af, "\"large_text\":", &assets.large_text);
            push_opt_member(&mut af, "\"small_image\":", &assets.small_image);
            push_opt_member(&mut af, "\"small_text\":", &assets.small_text);
            assert(views(af@) =~= asset_members(*assets));
            if af.len() > 0 {
                push_view(&mut fields, braced("\"assets\":{", &af, "}"));
            }
        },
        None => {},
    }
    assert(views(fields@) =~= assets_part(*a));
    fields
}

fn button_json(b: &ActivityButton) -> (r: String)
    ensures
        r@ == button_object((b.label@, b.url@)),
{
    let mut item = member("{\"label\":", b.label.as_str());
    let u = member(",\"url\":", b.url.as_str());
    push_str(&mut item, u.as_str());
    push_str(&mut item, "}");
    assert(item@ =~= button_object((b.label@, b.url@)));
    item
}

fn buttons_members_of(buttons: &Vec<ActivityButton>) -> (r: Vec<String>)
    ensures
        views(r@) == buttons_part(buttons_view(buttons@)),
{
    let ghost bv = buttons_view(buttons@);
    let mut fields: Vec<String> = Vec::new();
    if buttons.len() > 0 {
        let limit: usize = if buttons.len() < 2 {
            buttons.len()
        } else {
            2
        };
        let mut items: Vec<String> = Vec::new();
        let mut i: usize = 0;
        while i < limit
            invariant
                i <= limit <= buttons.len(),
                bv == buttons_view(buttons@),
                views(items@) == bv.take(i as int).map_values(|b: (Seq<char>, Seq<char>)| button_object(b)),
            decreases limit - i,
        {
            let item = button_json(&buttons[i]);
            assert(bv[i as int] == (buttons@[i as int].label@, buttons@[i as int].url@));
            push_view(&mut items, item);
            assert(bv.take(i + 1).map_values(|b: (Seq<char>, Seq<char>)| button_object(b)) =~= bv.take(
                i as int,
            ).map_values(|b: (Seq<char>, Seq<char>)| button_object(b)).push(button_object(bv[i as int])));
            i += 1;
        }
        push_view(&mut fields, braced("\"buttons\":[", &items, "]"));
    }
    assert(views(fields@) =~= buttons_part(bv));
    fields
}

fn append_views(fields: &mut Vec<String>, more: Vec<String>)
    ensures
        views(final(fields)@) == views(old(fields)@) + views(more@),
{
    let mut i: usize = 0;
    while i < more.len()
        invariant
            i <= more.len(),
            views(fields@) == views(old(fields)@) + views(more@).take(i as int),
        decreases more.len() - i,
    {
        let ghost before = views(fields@);
        push_view(fields, to_owned_string(more[i].as_str()));
        assert(views(more@).take(i + 1) =~= views(more@).take(i as int).push(more@[i as int]@));
        i += 1;
    }
    assert(views(more@).take(more.len() as int) =~= views(more@));
}

/// The activity object of a presence, as JSON text.
pub fn build_activity_payload(config: &PresenceConfig) -> (r: String)
    ensures
        r@ == activity_json(config.activity),
{
    let a = &config.activity;
    let mut fields: Vec<String> = Vec::new();
    push_view(&mut fields, decimal_member("\"type\":", a.kind.code() as u64));
    push_view(&mut fields, member("\"name\":", a.name.as_str()));
    push_opt_member(&mut fields, "\"details\":", &a.details);
    push_opt_member(&mut fields, "\"state\":", &a.state);
    append_views(&mut fields, timestamps_members_of(&a.timestamps));
    push_opt_member(&mut fields, "\"url\":", &a.url);
    append_views(&mut fields, assets_members_of(&a.assets));
    append_views(&mut fields, buttons_members_of(&a.buttons));
    proof {
        lemma_activity_members(config.activity);
    }
    assert(views(fields@) =~= activity_members(config.activity));
    braced("{", &fields, "}")
}

/// The `SET_ACTIVITY` command for a presence.
pub open spec fn set_activity_json(a: PresenceActivity, pid: u32, nonce: Seq<char>) -> Seq<char> {
    "{\"cmd\":\"SET_ACTIVITY\",\"args\":{\"pid\":"@ + decimal(pid as nat) + ",\"activity\":"@
        + activity_json(a) + "},\"nonce\":"@ + json_text(nonce) + "}"@
}

/// The `SET_ACTIVITY` command for a presence, from process `pid`.
pub fn build_set_activity_payload(config: &PresenceConfig, pid: u32, nonce: &str) -> (r: String)
    ensures
        r@ == set_activity_json(config.activity, pid, nonce@),
{
    let activity = build_activity_payload(config);
    let mut r = String::new();
    push_str(&mut r, "{\"cmd\":\"SET_ACTIVITY\",\"args\":{\"pid\":");
    push_decimal(&mut r, pid as u64);
    push_str(&mut r, ",\"activity\":");
    push_str(&mut r, activity.as_str());
    push_str(&mut r, "},\"nonce\":");
    let n = json_string(nonce);
    push_str(&mut r, n.as_str());
    push_str(&mut r, "}");
    r
}

/// The command that clears the activity.
pub open spec fn clear_activity_json(pid: u32, nonce: Seq<char>) -> Seq<char> {
    "{\"cmd\":\"SET_ACTIVITY\",\"args\":{\"pid\":"@ + decimal(pid as nat) + ",\"activity\":null},\"nonce\":"@
        + json_text(nonce) + "}"@
}

/// The command that clears the activity, from process `pid`.
pub fn build_clear_activity_payload(pid: u32, nonce: &str) -> (r: String)
    ensures
        r@ == clear_activity_json(pid, nonce@),
{
    let mut r = String::new();
    push_str(&mut r, "{\"cmd\":\"SET_ACTIVITY\",\"args\":{\"pid\":");
    push_decimal(&mut r, pid as u64);
    push_str(&mut r, ",\"activity\":null},\"nonce\":");
    let n = json_string(nonce);
    push_str(&mut r, n.as_str());
    push_str(&mut r, "}");
    r
}

/// The handshake of application `application_id`.
pub open spec fn handshake_json(application_id: Seq<char>) -> Seq<char> {
    "{\"v\":1,\"client_id\":"@ + json_text(application_id) + "}"@
}

/// The handshake of an application.
pub fn build_handshake_payload(application_id: &str) -> (r: String)
    ensures
        r@ == handshake_json(application_id@),
{
    let mut r = String::new();
    push_str(&mut r, "{\"v\":1,\"client_id\":");
    let j = json_string(application_id);
    push_str(&mut r, j.as_str());
    push_str(&mut r, "}");
    r
}


// ---------------------------------------------------------------------------
// The presence for the current stream
// ---------------------------------------------------------------------------

/// What a presence needs before any CHZZK call: the application id, the API
/// base URL and the account token.
pub struct PresencePrerequisites {
    pub application_id: String,
    pub api_base_url: String,
    pub access_token: String,
}

/// Why no presence is built.
#[derive(PartialEq, Eq, Structural)]
pub enum PresenceSkip {
    Disabled,
    MissingApplicationId,
    MissingToken,
}

/// The checks of `build_presence_config` before any CHZZK call: presence
/// enabled, an application id, and a token; the base URL defaults where
/// blank.
pub fn presence_prerequisites(settings: &PluginSettings) -> (r: Result<PresencePrerequisites, PresenceSkip>)
    ensures
        !settings.discord_presence_enabled ==> r == Err::<PresencePrerequisites, PresenceSkip>(
            PresenceSkip::Disabled,
        ),
        settings.discord_presence_enabled && blank(settings.discord_application_id@) ==> r == Err::<
            PresencePrerequisites,
            PresenceSkip,
        >(PresenceSkip::MissingApplicationId),
        settings.discord_presence_enabled && !blank(settings.discord_application_id@) && blank(
            settings.chzzk_authorization_token@,
        ) ==> r == Err::<PresencePrerequisites, PresenceSkip>(PresenceSkip::MissingToken),
        settings.discord_presence_enabled && !blank(settings.discord_application_id@) && !blank(
            settings.chzzk_authorization_token@,
        ) ==> (r matches Ok(p) && p.application_id@ == trim(settings.discord_application_id@)
            && p.access_token@ == trim(settings.chzzk_authorization_token@) && p.api_base_url@ == (
        if blank(settings.chzzk_api_base_url@) {
            DEFAULT_API_BASE@
        } else {
            trim(settings.chzzk_api_base_url@)
        })),
{
    if !settings.discord_presence_enabled {
        return Err(PresenceSkip::Disabled);
    }
    let application_id = match non_empty(settings.discord_application_id.as_str()) {
        Some(a) => a,
        None => return Err(PresenceSkip::MissingApplicationId),
    };
    let api_base_url = match non_empty(settings.chzzk_api_base_url.as_str()) {
        Some(b) => b,
        None => to_owned_string(DEFAULT_API_BASE),
    };
    let access_token = match non_empty(settings.chzzk_authorization_token.as_str()) {
        Some(t) => t,
        None => return Err(PresenceSkip::MissingToken),
    };
    Ok(PresencePrerequisites { application_id, api_base_url, access_token })
}

/// The live title shown: the non-blank title of the live settings.
pub open spec fn shown_title(live: Option<ChzzkLiveSettings>) -> Option<Seq<char>> {
    match live {
        Some(l) => match opt_view(l.live_title) {
            Some(t) => non_blank(t),
            None => None,
        },
        None => None,
    }
}

/// The channel name shown: the non-blank name of the channel.
pub open spec fn shown_channel(user: Option<ChzzkUserChannelInfo>) -> Option<Seq<char>> {
    match user {
        Some(u) => match opt_view(u.channel_name) {
            Some(n) => non_blank(n),
            None => None,
        },
        None => None,
    }
}

/// The activity name: the configured one unless it is blank or the default,
/// else made from the channel name and the live title.
pub open spec fn presence_name(configured: Seq<char>, channel: Option<Seq<char>>, title: Option<Seq<char>>) -> Seq<char> {
    match non_blank(configured) {
        Some(n) if n != DEFAULT_ACTIVITY_NAME@ => n,
        _ => match (channel, title) {
            (Some(c), Some(t)) => c + " - "@ + t,
            (Some(c), None) => c + " Live"@,
            (None, Some(t)) => t,
            (None, None) => DEFAULT_ACTIVITY_NAME@,
        },
    }
}

/// How the activity is named, in terms of the texts it is made from: a
/// name of its own (not blank, not the default) is kept, trimmed; else the
/// channel name and the live title are joined by ` - `; a channel name
/// alone gets ` Live`; a live title alone names the activity by itself;
/// with neither the default name is used.
pub proof fn lemma_presence_name_sources(configured: Seq<char>, channel: Option<Seq<char>>, title: Option<Seq<char>>)
    ensures
        !blank(configured) && trim(configured) != DEFAULT_ACTIVITY_NAME@ ==> presence_name(
            configured,
            channel,
            title,
        ) == trim(configured),
        (blank(configured) || trim(configured) == DEFAULT_ACTIVITY_NAME@) ==> {
            let name = presence_name(configured, channel, title);
            &&& (channel is Some && title is Some) ==> name == channel->0 + " - "@ + title->0
            &&& (channel is Some && title is None) ==> name == channel->0 + " Live"@
            &&& (channel is None && title is Some) ==> name == title->0
            &&& (channel is None && title is None) ==> name == DEFAULT_ACTIVITY_NAME@
        },
{
}

/// The details line: the live title, else a fixed text.
pub open spec fn presence_details(title: Option<Seq<char>>) -> Seq<char> {
    match title {
        Some(t) => t,
        None => "치지직 라이브 송출 중"@,
    }
}

/// The state line: the category, else the channel name, else `CHZZK`.
pub open spec fn presence_state(live: Option<ChzzkLiveSettings>, channel: Option<Seq<char>>) -> Seq<char> {
    let category = match live {
        Some(l) => opt_view(l.category_name),
        None => None,
    };
    match category {
        Some(c) => "카테고리: "@ + c,
        None => match channel {
            Some(n) => n,
            None => "CHZZK"@,
        },
    }
}

/// The channel's live page.
pub open spec fn channel_live_url(user: Option<ChzzkUserChannelInfo>) -> Option<Seq<char>> {
    match user {
        Some(u) => match opt_view(u.channel_id) {
            Some(id) => Some("https://chzzk.naver.com/live/"@ + id),
            None => None,
        },
        None => None,
    }
}

/// The presence built from what CHZZK answered: the channel, the live
/// settings and the live thumbnail, each absent where its call failed.
pub fn build_presence_config(
    application_id: String,
    configured_activity_name: &str,
    user_channel_info: Option<ChzzkUserChannelInfo>,
    live_settings: Option<ChzzkLiveSettings>,
    live_thumbnail_image_url: Option<String>,
    now_ms: u64,
) -> (c: PresenceConfig)
    ensures
        c.application_id == application_id,
        ({
            let title = shown_title(live_settings);
            let channel = shown_channel(user_channel_info);
            let name = presence_name(configured_activity_name@, channel, title);
            let a = c.activity;
            let link = channel_live_url(user_channel_info);
            &&& a.name@ == name
            &&& (!blank(configured_activity_name@) && trim(configured_activity_name@) != DEFAULT_ACTIVITY_NAME@)
                ==> a.name@ == trim(configured_activity_name@)
            &&& (blank(configured_activity_name@) || trim(configured_activity_name@) == DEFAULT_ACTIVITY_NAME@)
                ==> (channel is None && title is Some ==> a.name@ == title->0)
            &&& a.kind == ActivityType::Playing
            &&& opt_view(a.details) == Some(presence_details(title))
            &&& title is Some ==> opt_view(a.details) == title
            &&& title is None ==> opt_view(a.details) == Some("치지직 라이브 송출 중"@)
            &&& opt_view(a.state) == Some(presence_state(live_settings, channel))
            &&& a.timestamps.start == Some(now_ms)
            &&& a.timestamps.end is None
            &&& opt_view(a.url) == (match link {
                Some(u) => if supported_stream_url(u) {
                    Some(u)
                } else {
                    None
                },
                None => None,
            })
            &&& buttons_view(a.buttons@) == (match link {
                Some(u) => seq![("치지직 방송 보러가기"@, u)],
                None => Seq::empty(),
            })
            &&& match opt_view(live_thumbnail_image_url) {
                Some(t) => a.assets matches Some(assets) && opt_view(assets.large_image) == Some(
                    discord_asset_image(t),
                ) && opt_view(assets.large_text) == Some(name) && assets.small_image is None
                    && assets.small_text is None,
                None => a.assets is None,
            }
        }),
{
    let live_title: Option<String> = match &live_settings {
        Some(l) => match &l.live_title {
            Some(t) => non_empty(t.as_str()),
            None => None,
        },
        None => None,
    };
    let channel_name: Option<String> = match &user_channel_info {
        Some(u) => match &u.channel_name {
            Some(n) => non_empty(n.as_str()),
            None => None,
        },
        None => None,
    };
    let activity_name = {
        let configured = non_empty(configured_activity_name);
        let keep = match &configured {
            Some(n) => !str_eq(n.as_str(), DEFAULT_ACTIVITY_NAME),
            None => false,
        };
        if keep {
            configured.unwrap()
        } else {
            match (&channel_name, &live_title) {
                (Some(c), Some(t)) => {
                    let mut r = to_owned_string(c.as_str());
                    push_str(&mut r, " - ");
                    push_str(&mut r, t.as_str());
                    r
                },
                (Some(c), None) => {
                    let mut r = to_owned_string(c.as_str());
                    push_str(&mut r, " Live");
                    r
                },
                (None, Some(t)) => to_owned_string(t.as_str()),
                (None, None) => to_owned_string(DEFAULT_ACTIVITY_NAME),
            }
        }
    };
    let details = match &live_title {
        Some(t) => to_owned_string(t.as_str()),
        None => to_owned_string("치지직 라이브 송출 중"),
    };
    let category: Option<&String> = match &live_settings {
        Some(l) => match &l.category_name {
            Some(c) => Some(c),
            None => None,
        },
        None => None,
    };
    let state = match category {
        Some(c) => {
            let mut r = to_owned_string("카테고리: ");
            push_str(&mut r, c.as_str());
            r
        },
        None => match &channel_name {
            Some(n) => to_owned_string(n.as_str()),
            None => to_owned_string("CHZZK"),
        },
    };
    let button_url: Option<String> = match &user_channel_info {
        Some(u) => match &u.channel_id {
            Some(id) => {
                let mut r = to_owned_string("https://chzzk.naver.com/live/");
                push_str(&mut r, id.as_str());
                Some(r)
            },
            None => None,
        },
        None => None,
    };
    let stream_url: Option<String> = match &button_url {
        Some(u) => if is_supported_stream_url(u.as_str()) {
            Some(to_owned_string(u.as_str()))
        } else {
            None
        },
        None => None,
    };
    let large_text = to_owned_string(activity_name.as_str());
    let mut activity = PresenceActivity::new(activity_name).activity_type(ActivityType::Playing).details(
        details,
    ).state(state).timestamps(Some(now_ms), None);
    match stream_url {
        Some(u) => {
            activity = activity.url(u);
        },
        None => {},
    }
    match button_url {
        Some(u) => {
            activity = activity.button(to_owned_string("치지직 방송 보러가기"), u);
            assert(buttons_view(activity.buttons@) =~= seq![("치지직 방송 보러가기"@, activity.buttons@[0].url@)]);
        },
        None => {
            assert(buttons_view(activity.buttons@) =~= Seq::<(Seq<char>, Seq<char>)>::empty());
        },
    }
    match live_thumbnail_image_url {
        Some(t) => {
            let mut assets = ActivityAssets::new();
            assets.large_image = Some(to_discord_asset_image(t.as_str()));
            assets.large_text = Some(large_text);
            activity = activity.assets(assets);
        },
        None => {},
    }
    PresenceConfig { application_id, activity }
}

} // verus!
