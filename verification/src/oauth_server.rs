//! The local OAuth callback endpoint: what it accepts as the redirect from
//! the CHZZK account page, and what it answers.
//!
//! Listening and socket reads and writes are the caller's; this module
//! decides on the bytes of one request.

use vstd::prelude::*;
use vstd::utf8::{encode_utf8, is_ascii_chars, is_ascii_chars_encode_utf8, is_continuation_byte};

use crate::chzzk::{encode_byte, is_unreserved, url_encode};

use crate::text::{
    decimal, find_char, index_of, is_whitespace, is_ws, lemma_index_of, lossy_utf8, push_decimal,
    push_str, str_eq, string_from_range, to_owned_string, trim_start, utf8_lossy_string, chars_of,
};

verus! {

/// Requests of this many bytes or more are refused.
pub const MAX_REQUEST_BYTES: usize = 8192;

/// `code` and `state` values longer than this many bytes are refused.
pub const MAX_CALLBACK_PARAM_BYTES: usize = 2048;

/// The authorization code and state that the redirect carried.
pub struct OAuthCallbackData {
    pub code: String,
    pub state: String,
}

/// The state shared between the callback listener and the code waiting for
/// the callback: the accepted callback, if any, and whether the listener has
/// been asked to stop.
pub struct OAuthCallbackServer {
    pub result: Option<OAuthCallbackData>,
    pub shutdown: bool,
}

impl OAuthCallbackServer {
    /// No callback yet; running.
    pub fn new() -> (s: Self)
        ensures
            s.result is None,
            !s.shutdown,
    {
        OAuthCallbackServer { result: None, shutdown: false }
    }

    /// Asks the listener to stop; the accepted callback stays.
    pub fn stop(&mut self)
        ensures
            final(self).shutdown,
            final(self).result == old(self).result,
    {
        self.shutdown = true;
    }

    /// Whether the listener has been asked to stop.
    pub fn is_shutdown(&self) -> (b: bool)
        ensures
            b == self.shutdown,
    {
        self.shutdown
    }

    /// Records an accepted callback.
    pub fn store_result(&mut self, data: OAuthCallbackData)
        ensures
            final(self).result == Some(data),
            final(self).shutdown == old(self).shutdown,
    {
        self.result = Some(data);
    }

    /// A copy of the accepted callback, if one has arrived.
    pub fn get_result(&self) -> (r: Option<OAuthCallbackData>)
        ensures
            r is Some <==> self.result is Some,
            r matches Some(d) ==> d.code@ == self.result->0.code@ && d.state@
                == self.result->0.state@,
    {
        match &self.result {
            Some(d) => Some(
                OAuthCallbackData {
                    code: to_owned_string(d.code.as_str()),
                    state: to_owned_string(d.state.as_str()),
                },
            ),
            None => None,
        }
    }
}

// ---------------------------------------------------------------------------
// Request line
// ---------------------------------------------------------------------------

/// The first line of a text, as `str::lines` yields it: up to the first line
/// feed, without a carriage return just before it.
pub open spec fn first_line(s: Seq<char>) -> Seq<char> {
    match index_of(s, '\n') {
        Some(k) => {
            let l = s.subrange(0, k);
            if l.len() > 0 && l.last() == '\r' {
                l.drop_last()
            } else {
                l
            }
        },
        None => s,
    }
}

/// The number of leading characters that are not whitespace.
pub open spec fn word_len(t: Seq<char>) -> nat
    decreases t.len(),
{
    if t.len() > 0 && !is_ws(t[0]) {
        1 + word_len(t.drop_first())
    } else {
        0
    }
}

pub proof fn lemma_word_len_bounds(t: Seq<char>)
    ensures
        word_len(t) <= t.len(),
        t.len() > 0 && !is_ws(t[0]) ==> word_len(t) >= 1,
    decreases t.len(),
{
    if t.len() > 0 && !is_ws(t[0]) {
        lemma_word_len_bounds(t.drop_first());
    }
}

pub proof fn lemma_trim_start_shorter(s: Seq<char>)
    ensures
        trim_start(s).len() <= s.len(),
        trim_start(s).len() > 0 ==> !is_ws(trim_start(s)[0]),
        exists|k: int| 0 <= k <= s.len() && trim_start(s) == s.subrange(k, s.len() as int),
    decreases s.len(),
{
    if s.len() > 0 && is_ws(s[0]) {
        lemma_trim_start_shorter(s.drop_first());
        let k = choose|k: int|
            0 <= k <= s.drop_first().len() && trim_start(s.drop_first()) == s.drop_first().subrange(
                k,
                s.drop_first().len() as int,
            );
        assert(s.drop_first().subrange(k, s.drop_first().len() as int) == s.subrange(
            k + 1,
            s.len() as int,
        ));
    } else {
        assert(s.subrange(0, s.len() as int) == s);
    }
}

/// The whitespace-separated words of a text (`str::split_whitespace`).
pub open spec fn words(s: Seq<char>) -> Seq<Seq<char>>
    decreases s.len(),
{
    let t = trim_start(s);
    if t.len() == 0 {
        Seq::empty()
    } else {
        proof {
            lemma_trim_start_shorter(s);
            lemma_word_len_bounds(t);
        }
        let n = word_len(t);
        seq![t.subrange(0, n as int)] + words(t.subrange(n as int, t.len() as int))
    }
}

proof fn lemma_trim_start_skip(s: Seq<char>, k: int)
    requires
        0 <= k <= s.len(),
        forall|j: int| 0 <= j < k ==> is_ws(#[trigger] s[j]),
    ensures
        trim_start(s) == trim_start(s.subrange(k, s.len() as int)),
    decreases k,
{
    if k > 0 {
        assert(s.drop_first().subrange(k - 1, s.drop_first().len() as int) == s.subrange(
            k,
            s.len() as int,
        ));
        assert forall|j: int| 0 <= j < k - 1 implies is_ws(#[trigger] s.drop_first()[j]) by {
            assert(s.drop_first()[j] == s[j + 1]);
        }
        lemma_trim_start_skip(s.drop_first(), k - 1);
    } else {
        assert(s.subrange(0, s.len() as int) == s);
    }
}

proof fn lemma_word_len_exact(t: Seq<char>, k: int)
    requires
        0 <= k <= t.len(),
        forall|j: int| 0 <= j < k ==> !is_ws(#[trigger] t[j]),
        k == t.len() || is_ws(t[k]),
    ensures
        word_len(t) == k,
    decreases k,
{
    if k > 0 {
        assert forall|j: int| 0 <= j < k - 1 implies !is_ws(#[trigger] t.drop_first()[j]) by {
            assert(t.drop_first()[j] == t[j + 1]);
        }
        if k < t.len() {
            assert(t.drop_first()[k - 1] == t[k]);
        }
        lemma_word_len_exact(t.drop_first(), k - 1);
    }
}

/// The next word of `v[p..]`: `None` where only whitespace is left, else its
/// bounds, with the words of the rest following it.
fn next_word(v: &Vec<char>, p: usize) -> (r: Option<(usize, usize)>)
    requires
        p <= v.len(),
    ensures
        r is None ==> words(v@.subrange(p as int, v@.len() as int)).len() == 0,
        r matches Some((q, e)) ==> p <= q < e <= v.len() && words(
            v@.subrange(p as int, v@.len() as int),
        ) == seq![v@.subrange(q as int, e as int)] + words(v@.subrange(e as int, v@.len() as int)),
{
    let n = v.len();
    let ghost s = v@.subrange(p as int, n as int);
    let mut q = p;
    while q < n && is_whitespace(v[q])
        invariant
            p <= q <= n == v.len(),
            s == v@.subrange(p as int, n as int),
            forall|j: int| p <= j < q ==> is_ws(#[trigger] v@[j]),
        decreases n - q,
    {
        q += 1;
    }
    proof {
        assert forall|j: int| 0 <= j < q - p implies is_ws(#[trigger] s[j]) by {
            assert(s[j] == v@[p + j]);
        }
        lemma_trim_start_skip(s, q - p);
        assert(s.subrange(q - p, s.len() as int) == v@.subrange(q as int, n as int));
    }
    let ghost t = v@.subrange(q as int, n as int);
    assert(trim_start(t) == t) by {
        if t.len() > 0 {
            assert(t[0] == v@[q as int]);
        }
    }
    if q == n {
        return None;
    }
    let mut e = q;
    while e < n && !is_whitespace(v[e])
        invariant
            q <= e <= n == v.len(),
            forall|j: int| q <= j < e ==> !is_ws(#[trigger] v@[j]),
        decreases n - e,
    {
        e += 1;
    }
    proof {
        assert forall|j: int| 0 <= j < e - q implies !is_ws(#[trigger] t[j]) by {
            assert(t[j] == v@[q + j]);
        }
        if e < n {
            assert(t[e - q] == v@[e as int]);
        }
        lemma_word_len_exact(t, e - q);
        assert(t.subrange(0, e - q) == v@.subrange(q as int, e as int));
        assert(t.subrange(e - q, t.len() as int) == v@.subrange(e as int, n as int));
    }
    Some((q, e))
}

/// The method and target of a request line of at least three words.
pub open spec fn request_line_parts(line: Seq<char>) -> Option<(Seq<char>, Seq<char>)> {
    let w = words(line);
    if w.len() >= 3 {
        Some((w[0], w[1]))
    } else {
        None
    }
}

/// Splits a request line into its method and target; it must have a third
/// word, the version.
pub fn parse_request_line(line: &str) -> (r: Option<(String, String)>)
    ensures
        match request_line_parts(line@) {
            Some((m, t)) => r matches Some((rm, rt)) && rm@ == m && rt@ == t,
            None => r is None,
        },
{
    let v = chars_of(line);
    assert(v@.subrange(0, v@.len() as int) == v@);
    let (a, b) = match next_word(&v, 0) {
        Some(x) => x,
        None => return None,
    };
    let (c, d) = match next_word(&v, b) {
        Some(x) => x,
        None => return None,
    };
    match next_word(&v, d) {
        Some(_) => {},
        None => return None,
    }
    Some((string_from_range(&v, a, b), string_from_range(&v, c, d)))
}

/// The path and query of a request target, split at the first `?`.
pub open spec fn target_parts(target: Seq<char>) -> (Seq<char>, Option<Seq<char>>) {
    match index_of(target, '?') {
        Some(i) => (target.subrange(0, i), Some(target.subrange(i + 1, target.len() as int))),
        None => (target, None),
    }
}

/// Splits a request target into its path and query.
pub fn split_target(target: &str) -> (r: (String, Option<String>))
    ensures
        r.0@ == target_parts(target@).0,
        match target_parts(target@).1 {
            Some(q) => r.1 matches Some(rq) && rq@ == q,
            None => r.1 is None,
        },
{
    let v = chars_of(target);
    assert(v@.subrange(0, v@.len() as int) == v@);
    proof {
        lemma_index_of(target@, '?');
    }
    match find_char(&v, 0, v.len(), '?') {
        Some(i) => (string_from_range(&v, 0, i), Some(string_from_range(&v, i + 1, v.len()))),
        None => (string_from_range(&v, 0, v.len()), None),
    }
}

// ---------------------------------------------------------------------------
// Query parameters
// ---------------------------------------------------------------------------

pub proof fn lemma_index_of_bound(s: Seq<char>, c: char)
    ensures
        index_of(s, c) matches Some(i) ==> 0 <= i < s.len(),
{
    lemma_index_of(s, c);
}

/// The raw value of the parameter `param` in a query: the pairs separated by
/// `&` are read in order, and reading stops with `None` at the first pair
/// without `=`.
pub open spec fn find_param(q: Seq<char>, param: Seq<char>) -> Option<Seq<char>>
    decreases q.len(),
{
    let amp = index_of(q, '&');
    let piece = match amp {
        Some(i) => q.subrange(0, i),
        None => q,
    };
    match index_of(piece, '=') {
        None => None,
        Some(j) => if piece.subrange(0, j) == param {
            Some(piece.subrange(j + 1, piece.len() as int))
        } else {
            match amp {
                Some(i) => {
                    proof {
                        lemma_index_of_bound(q, '&');
                    }
                    find_param(q.subrange(i + 1, q.len() as int), param)
                },
                None => None,
            }
        },
    }
}

/// The value of a hexadecimal digit.
pub open spec fn hex_digit(b: u8) -> Option<u8> {
    if 48 <= b <= 57 {
        Some((b - 48) as u8)
    } else if 97 <= b <= 102 {
        Some((b - 87) as u8)
    } else if 65 <= b <= 70 {
        Some((b - 55) as u8)
    } else {
        None
    }
}

/// `u8::from_str_radix` on two bytes in base 16: two hex digits, or `+` and
/// one hex digit.
pub open spec fn parse_hex_pair(b1: u8, b2: u8) -> Option<u8> {
    if b1 == 43 {
        hex_digit(b2)
    } else {
        match (hex_digit(b1), hex_digit(b2)) {
            (Some(h), Some(l)) => Some((h * 16 + l) as u8),
            _ => None,
        }
    }
}

/// `r` with `x` in front.
pub open spec fn prepend(x: u8, r: Option<Seq<u8>>) -> Option<Seq<u8>> {
    match r {
        Some(t) => Some(seq![x] + t),
        None => None,
    }
}

/// The bytes that URL decoding makes of `b[i..]`: `%` and two hex digits give
/// a byte, `+` gives a space, other bytes stay. `None` where the decoder
/// would cut a character in two (it reads the two bytes after a `%` as a
/// `str` slice).
pub open spec fn decode_from(b: Seq<u8>, i: int) -> Option<Seq<u8>>
    decreases b.len() - i,
{
    if i < 0 || i >= b.len() {
        Some(Seq::empty())
    } else if b[i] == 37 && i + 2 < b.len() {
        if i + 3 < b.len() && is_continuation_byte(b[i + 3]) {
            None
        } else {
            match parse_hex_pair(b[i + 1], b[i + 2]) {
                Some(x) => prepend(x, decode_from(b, i + 3)),
                None => prepend(37, decode_from(b, i + 1)),
            }
        }
    } else if b[i] == 43 {
        prepend(32, decode_from(b, i + 1))
    } else {
        prepend(b[i], decode_from(b, i + 1))
    }
}

/// The URL decoding of a text, where it is defined.
pub open spec fn url_decoded(s: Seq<char>) -> Option<Seq<u8>> {
    decode_from(encode_utf8(s), 0)
}

/// The decoded text of a value.
pub open spec fn decoded_text(s: Seq<char>) -> Seq<char> {
    lossy_utf8(url_decoded(s)->0)
}

fn hex_digit_value(b: u8) -> (r: Option<u8>)
    ensures
        r == hex_digit(b),
{
    if 48 <= b && b <= 57 {
        Some(b - 48)
    } else if 97 <= b && b <= 102 {
        Some(b - 87)
    } else if 65 <= b && b <= 70 {
        Some(b - 55)
    } else {
        None
    }
}

fn hex_pair_value(b1: u8, b2: u8) -> (r: Option<u8>)
    ensures
        r == parse_hex_pair(b1, b2),
{
    if b1 == 43 {
        hex_digit_value(b2)
    } else {
        match (hex_digit_value(b1), hex_digit_value(b2)) {
            (Some(h), Some(l)) => Some(h * 16 + l),
            _ => None,
        }
    }
}

/// Joined prefix and rest of a decoding.
pub open spec fn joined(prefix: Seq<u8>, r: Option<Seq<u8>>) -> Option<Seq<u8>> {
    match r {
        Some(t) => Some(prefix + t),
        None => None,
    }
}

/// Decodes `%XX` escapes and `+` in a query value; invalid UTF-8 in the
/// result is replaced by U+FFFD.
pub fn url_decode(s: &str) -> (res: String)
    requires
        url_decoded(s@) is Some,
    ensures
        res@ == decoded_text(s@),
{
    let input = s.as_bytes();
    let ghost b = input@;
    let mut bytes: Vec<u8> = Vec::new();
    let mut i: usize = 0;
    assert(joined(Seq::<u8>::empty(), decode_from(b, 0)) == decode_from(b, 0)) by {
        if decode_from(b, 0) is Some {
            assert(Seq::<u8>::empty() + decode_from(b, 0)->0 == decode_from(b, 0)->0);
        }
    }
    while i < input.len()
        invariant
            b == input@,
            b == encode_utf8(s@),
            i <= input.len(),
            decode_from(b, 0) is Some,
            decode_from(b, 0) == joined(bytes@, decode_from(b, i as int)),
        decreases input.len() - i,
    {
        let c = input[i];
        if c == 37 && input.len() - i > 2 {
            match hex_pair_value(input[i + 1], input[i + 2]) {
                Some(x) => {
                    let ghost before = bytes@;
                    bytes.push(x);
                    assert(decode_from(b, i as int) == prepend(x, decode_from(b, i + 3)));
                    proof {
                        if decode_from(b, i + 3) is Some {
                            assert(before + (seq![x] + decode_from(b, i + 3)->0) == bytes@
                                + decode_from(b, i + 3)->0);
                        }
                    }
                    i += 3;
                },
                None => {
                    let ghost before = bytes@;
                    bytes.push(c);
                    assert(decode_from(b, i as int) == prepend(37, decode_from(b, i + 1)));
                    proof {
                        if decode_from(b, i + 1) is Some {
                            assert(before + (seq![37u8] + decode_from(b, i + 1)->0) == bytes@
                                + decode_from(b, i + 1)->0);
                        }
                    }
                    i += 1;
                },
            }
        } else if c == 43 {
            let ghost before = bytes@;
            bytes.push(32);
            proof {
                if decode_from(b, i + 1) is Some {
                    assert(before + (seq![32u8] + decode_from(b, i + 1)->0) == bytes@ + decode_from(
                        b,
                        i + 1,
                    )->0);
                }
            }
            i += 1;
        } else {
            let ghost before = bytes@;
            bytes.push(c);
            proof {
                if decode_from(b, i + 1) is Some {
                    assert(before + (seq![c] + decode_from(b, i + 1)->0) == bytes@ + decode_from(
                        b,
                        i + 1,
                    )->0);
                }
            }
            i += 1;
        }
    }
    assert(decode_from(b, i as int) == Some(Seq::<u8>::empty()));
    assert(bytes@ + Seq::<u8>::empty() == bytes@);
    utf8_lossy_string(bytes.as_slice())
}


/// Whether decoding the value of `param` in `q`, where there is one, stays
/// clear of cutting a character in two.
pub open spec fn param_decodable(q: Seq<char>, param: Seq<char>) -> bool {
    find_param(q, param) matches Some(raw) ==> url_decoded(raw) is Some
}

/// The decoded value of `param` in `q`.
pub open spec fn param_value(q: Seq<char>, param: Seq<char>) -> Option<Seq<char>> {
    match find_param(q, param) {
        Some(raw) => Some(decoded_text(raw)),
        None => None,
    }
}

/// The raw value of the parameter `param` in a query string, before URL
/// decoding. Pairs are read in order; a pair without `=` ends the search
/// with `None`.
pub fn find_raw_param(query: &str, param: &str) -> (r: Option<String>)
    ensures
        match find_param(query@, param@) {
            Some(raw) => r matches Some(x) && x@ == raw,
            None => r is None,
        },
{
    let v = chars_of(query);
    let n = v.len();
    let mut pos: usize = 0;
    assert(v@.subrange(0, n as int) == v@);
    while pos <= n
        invariant
            pos <= n == v.len(),
            v@ == query@,
            find_param(query@, param@) == find_param(v@.subrange(pos as int, n as int), param@),
        decreases n - pos,
    {
        let ghost q = v@.subrange(pos as int, n as int);
        proof {
            lemma_index_of(q, '&');
        }
        let amp = find_char(&v, pos, n, '&');
        let piece_end = match amp {
            Some(i) => i,
            None => n,
        };
        let ghost piece = match index_of(q, '&') {
            Some(i) => q.subrange(0, i),
            None => q,
        };
        assert(piece == v@.subrange(pos as int, piece_end as int));
        proof {
            lemma_index_of(piece, '=');
        }
        let eq = find_char(&v, pos, piece_end, '=');
        let j = match eq {
            Some(j) => j,
            None => return None,
        };
        let key = string_from_range(&v, pos, j);
        assert(key@ == piece.subrange(0, j - pos));
        if str_eq(key.as_str(), param) {
            let raw = string_from_range(&v, j + 1, piece_end);
            assert(raw@ == piece.subrange(j - pos + 1, piece.len() as int));
            assert(index_of(piece, '=') == Some(j - pos));
            assert(find_param(q, param@) == Some(raw@));
            return Some(raw);
        }
        match amp {
            Some(i) => {
                assert(q.subrange((i - pos) + 1, q.len() as int) == v@.subrange(i + 1, n as int));
                pos = i + 1;
            },
            None => return None,
        }
    }
    None
}

/// The decoded value of the parameter `param` in a query string. Pairs are
/// read in order; a pair without `=` ends the search with `None`.
pub fn extract_query_param(query: &str, param: &str) -> (r: Option<String>)
    requires
        param_decodable(query@, param@),
    ensures
        match param_value(query@, param@) {
            Some(x) => r matches Some(rx) && rx@ == x,
            None => r is None,
        },
{
    match find_raw_param(query, param) {
        Some(raw) => Some(url_decode(raw.as_str())),
        None => None,
    }
}

/// Whether URL decoding `s` stays clear of cutting a character in two.
pub fn url_decodable(s: &str) -> (r: bool)
    ensures
        r == (url_decoded(s@) is Some),
{
    let input = s.as_bytes();
    let ghost b = input@;
    let mut i: usize = 0;
    while i < input.len()
        invariant
            b == input@,
            b == encode_utf8(s@),
            i <= input.len(),
            (decode_from(b, 0) is Some) == (decode_from(b, i as int) is Some),
        decreases input.len() - i,
    {
        let c = input[i];
        if c == 37 && input.len() - i > 2 {
            if input.len() - i > 3 && 0x80 <= input[i + 3] && input[i + 3] <= 0xbf {
                return false;
            }
            match hex_pair_value(input[i + 1], input[i + 2]) {
                Some(_) => {
                    i += 3;
                },
                None => {
                    i += 1;
                },
            }
        } else {
            i += 1;
        }
    }
    true
}

/// Whether the request's `code` and `state` can be decoded: the condition
/// under which `evaluate_callback_request` may be called.
pub fn callback_request_is_decodable(request: &[u8]) -> (r: bool)
    ensures
        r == callback_request_decodable(request@),
{
    if request.len() == 0 || request.len() >= MAX_REQUEST_BYTES {
        return true;
    }
    let text = utf8_lossy_string(request);
    let line = first_line_of(text.as_str());
    let (method, target) = match parse_request_line(line.as_str()) {
        Some(parts) => parts,
        None => return true,
    };
    if !str_eq(method.as_str(), "GET") {
        return true;
    }
    let (path, query) = split_target(target.as_str());
    if !str_eq(path.as_str(), "/callback") {
        return true;
    }
    let query = match query {
        Some(q) => q,
        None => return true,
    };
    match find_raw_param(query.as_str(), "code") {
        None => true,
        Some(code) => {
            if !url_decodable(code.as_str()) {
                return false;
            }
            match find_raw_param(query.as_str(), "state") {
                None => true,
                Some(state) => url_decodable(state.as_str()),
            }
        },
    }
}

/// The byte at `i`, or 0 past the end.
pub open spec fn byte_or_zero(b: Seq<u8>, i: int) -> u8 {
    if 0 <= i < b.len() {
        b[i]
    } else {
        0
    }
}

/// What the constant-time comparison answers: the lengths agree modulo 256
/// and the bytes agree, the shorter text read as followed by zero bytes.
pub open spec fn ct_equal(l: Seq<u8>, r: Seq<u8>) -> bool {
    &&& l.len() % 256 == r.len() % 256
    &&& forall|i: int|
        0 <= i < (if l.len() > r.len() {
            l.len()
        } else {
            r.len()
        }) ==> byte_or_zero(l, i) == byte_or_zero(r, i)
}

proof fn lemma_xor_low_byte(a: usize, b: usize)
    ensures
        ((a ^ b) as u8 == 0) == (a % 256 == b % 256),
{
    assert(((a ^ b) as u8 == 0) == (a % 256 == b % 256)) by (bit_vector);
}

proof fn lemma_or_xor(d: u8, a: u8, b: u8)
    ensures
        ((d | (a ^ b)) == 0) == (d == 0 && a == b),
{
    assert(((d | (a ^ b)) == 0) == (d == 0 && a == b)) by (bit_vector);
}

/// Compares two texts byte by byte without an early exit.
pub fn constant_time_eq(left: &str, right: &str) -> (b: bool)
    ensures
        b == ct_equal(encode_utf8(left@), encode_utf8(right@)),
{
    let lb = left.as_bytes();
    let rb = right.as_bytes();
    let max_len = if lb.len() > rb.len() {
        lb.len()
    } else {
        rb.len()
    };
    let mut diff: u8 = (lb.len() ^ rb.len()) as u8;
    proof {
        lemma_xor_low_byte(lb.len(), rb.len());
    }
    let mut index: usize = 0;
    while index < max_len
        invariant
            lb@ == encode_utf8(left@),
            rb@ == encode_utf8(right@),
            max_len == if lb@.len() > rb@.len() {
                lb@.len()
            } else {
                rb@.len()
            },
            index <= max_len,
            (diff == 0) == (lb@.len() % 256 == rb@.len() % 256 && forall|j: int|
                0 <= j < index ==> byte_or_zero(lb@, j) == byte_or_zero(rb@, j)),
        decreases max_len - index,
    {
        let a = if index < lb.len() {
            lb[index]
        } else {
            0
        };
        let b = if index < rb.len() {
            rb[index]
        } else {
            0
        };
        proof {
            lemma_or_xor(diff, a, b);
        }
        assert(byte_or_zero(lb@, index as int) == a);
        assert(byte_or_zero(rb@, index as int) == b);
        let ghost old_diff = diff;
        diff = diff | (a ^ b);
        assert((forall|j: int| 0 <= j < index + 1 ==> byte_or_zero(lb@, j) == byte_or_zero(rb@, j))
            == ((forall|j: int| 0 <= j < index ==> byte_or_zero(lb@, j) == byte_or_zero(rb@, j))
            && a == b)) by {
            if a == b && (forall|j: int| 0 <= j < index ==> byte_or_zero(lb@, j) == byte_or_zero(rb@, j)) {
                assert forall|j: int| 0 <= j < index + 1 implies byte_or_zero(lb@, j) == byte_or_zero(rb@, j) by {
                    if j < index {
                    }
                }
            }
        }
        index += 1;
    }
    diff == 0
}

/// Equal texts pass the constant-time comparison.
pub proof fn lemma_constant_time_eq_reflexive(l: Seq<u8>)
    ensures
        ct_equal(l, l),
{
}

/// Texts of the same length that pass the constant-time comparison are
/// equal.
pub proof fn lemma_constant_time_eq_same_length(l: Seq<u8>, r: Seq<u8>)
    requires
        l.len() == r.len(),
        ct_equal(l, r),
    ensures
        l == r,
{
    assert forall|i: int| 0 <= i < l.len() implies l[i] == r[i] by {
        assert(byte_or_zero(l, i) == byte_or_zero(r, i));
    }
    assert(l =~= r);
}

// ---------------------------------------------------------------------------
// One callback request
// ---------------------------------------------------------------------------

/// The first line of a text.
pub fn first_line_of(s: &str) -> (r: String)
    ensures
        r@ == first_line(s@),
{
    let v = chars_of(s);
    assert(v@.subrange(0, v@.len() as int) == v@);
    proof {
        lemma_index_of(s@, '\n');
    }
    match find_char(&v, 0, v.len(), '\n') {
        Some(k) => {
            if k > 0 && v[k - 1] == '\r' {
                assert(v@.subrange(0, k as int).drop_last() == v@.subrange(0, k - 1));
                string_from_range(&v, 0, k - 1)
            } else {
                string_from_range(&v, 0, k)
            }
        },
        None => string_from_range(&v, 0, v.len()),
    }
}

/// The query of a request that names the callback path with a `GET` line.
pub open spec fn callback_query(request: Seq<u8>) -> Option<Seq<char>> {
    match request_line_parts(first_line(lossy_utf8(request))) {
        Some((method, target)) => if method == "GET"@ && target_parts(target).0 == "/callback"@ {
            target_parts(target).1
        } else {
            None
        },
        None => None,
    }
}

/// Whether the decoder can read the request's `code` and `state` without
/// cutting a character in two; other requests are unconstrained.
pub open spec fn callback_request_decodable(request: Seq<u8>) -> bool {
    0 < request.len() < MAX_REQUEST_BYTES ==> (callback_query(request) matches Some(q) ==> {
        &&& param_decodable(q, "code"@)
        &&& param_value(q, "code"@) is Some ==> param_decodable(q, "state"@)
    })
}

/// What the endpoint makes of a request: the accepted code and state, or
/// the error shown in the answer page.
pub open spec fn callback_outcome(request: Seq<u8>, expected_state: Seq<char>) -> Result<
    (Seq<char>, Seq<char>),
    Seq<char>,
> {
    if request.len() == 0 {
        Err("Empty request"@)
    } else if request.len() >= MAX_REQUEST_BYTES {
        Err("Request too large"@)
    } else {
        match request_line_parts(first_line(lossy_utf8(request))) {
            None => Err("Malformed request line"@),
            Some((method, target)) => if method != "GET"@ {
                Err("Unsupported HTTP method"@)
            } else if target_parts(target).0 != "/callback"@ {
                Err("Invalid callback path"@)
            } else {
                match target_parts(target).1 {
                    None => Err("Missing query parameters"@),
                    Some(q) => match param_value(q, "code"@) {
                        None => Err("Missing code parameter"@),
                        Some(code) => match param_value(q, "state"@) {
                            None => Err("Missing state parameter"@),
                            Some(state) => if byte_len(code) > MAX_CALLBACK_PARAM_BYTES || byte_len(
                                state,
                            ) > MAX_CALLBACK_PARAM_BYTES {
                                Err("OAuth callback parameter too large"@)
                            } else if !ct_equal(encode_utf8(state), encode_utf8(expected_state)) {
                                Err("State mismatch"@)
                            } else {
                                Ok((code, state))
                            },
                        },
                    },
                }
            },
        }
    }
}

/// Decides on one callback request, given the bytes read from the
/// connection: the accepted code and state, or the error to answer with.
pub fn evaluate_callback_request(request: &[u8], expected_state: &str) -> (r: Result<
    OAuthCallbackData,
    String,
>)
    requires
        callback_request_decodable(request@),
    ensures
        match callback_outcome(request@, expected_state@) {
            Ok((code, state)) => r matches Ok(d) && d.code@ == code && d.state@ == state,
            Err(m) => r matches Err(e) && e@ == m,
        },
{
    if request.len() == 0 {
        return Err(to_owned_string("Empty request"));
    }
    if request.len() >= MAX_REQUEST_BYTES {
        return Err(to_owned_string("Request too large"));
    }
    let text = utf8_lossy_string(request);
    let line = first_line_of(text.as_str());
    let (method, target) = match parse_request_line(line.as_str()) {
        Some(parts) => parts,
        None => return Err(to_owned_string("Malformed request line")),
    };
    if !str_eq(method.as_str(), "GET") {
        return Err(to_owned_string("Unsupported HTTP method"));
    }
    let (path, query) = split_target(target.as_str());
    if !str_eq(path.as_str(), "/callback") {
        return Err(to_owned_string("Invalid callback path"));
    }
    let query = match query {
        Some(q) => q,
        None => return Err(to_owned_string("Missing query parameters")),
    };
    let code = match extract_query_param(query.as_str(), "code") {
        Some(c) => c,
        None => return Err(to_owned_string("Missing code parameter")),
    };
    let state = match extract_query_param(query.as_str(), "state") {
        Some(s) => s,
        None => return Err(to_owned_string("Missing state parameter")),
    };
    if code.as_str().len() > MAX_CALLBACK_PARAM_BYTES || state.as_str().len()
        > MAX_CALLBACK_PARAM_BYTES {
        return Err(to_owned_string("OAuth callback parameter too large"));
    }
    if !constant_time_eq(state.as_str(), expected_state) {
        return Err(to_owned_string("State mismatch"));
    }
    Ok(OAuthCallbackData { code, state })
}

/// Decides on one callback request where its parameters can be decoded;
/// `None` for a request whose `code` or `state` would be cut inside a
/// character by the decoder, which the listener does not answer.
pub fn decide_callback_request(request: &[u8], expected_state: &str) -> (r: Option<
    Result<OAuthCallbackData, String>,
>)
    ensures
        r is None <==> !callback_request_decodable(request@),
        r matches Some(outcome) ==> match callback_outcome(request@, expected_state@) {
            Ok((code, state)) => outcome matches Ok(d) && d.code@ == code && d.state@ == state,
            Err(m) => outcome matches Err(e) && e@ == m,
        },
{
    if !callback_request_is_decodable(request) {
        return None;
    }
    Some(evaluate_callback_request(request, expected_state))
}

// ---------------------------------------------------------------------------
// Answers
// ---------------------------------------------------------------------------

/// The length in bytes of a text (`str::len`).
pub open spec fn byte_len(s: Seq<char>) -> usize {
    encode_utf8(s).len() as usize
}

/// An HTTP/1.1 answer with an HTML body, closing the connection.
pub open spec fn http_response(status: Seq<char>, body: Seq<char>) -> Seq<char> {
    "HTTP/1.1 "@ + status + "\r\nContent-Type: text/html; charset=utf-8\r\nContent-Length: "@
        + decimal(byte_len(body) as nat) + "\r\nConnection: close\r\n\r\n"@ + body
}

/// The text of an answer, as written to the connection.
pub fn response_text(status: &str, body: &str) -> (r: String)
    ensures
        r@ == http_response(status@, body@),
{
    let mut r = String::new();
    push_str(&mut r, "HTTP/1.1 ");
    push_str(&mut r, status);
    push_str(&mut r, "\r\nContent-Type: text/html; charset=utf-8\r\nContent-Length: ");
    push_decimal(&mut r, body.len() as u64);
    push_str(&mut r, "\r\nConnection: close\r\n\r\n");
    push_str(&mut r, body);
    r
}

/// The page shown after an accepted callback.
pub open spec fn success_page() -> Seq<char> {
    "<!DOCTYPE html><html><body><h1>Authorization Successful</h1><p>You can close this window and return to OBS.</p></body></html>"@
}

/// The page shown for a refused request.
pub open spec fn error_page(error: Seq<char>) -> Seq<char> {
    "<!DOCTYPE html><html><body><h1>Authorization Failed</h1><p>Error: "@ + error
        + "</p></body></html>"@
}

/// The answer to an accepted callback.
pub fn success_response_text() -> (r: String)
    ensures
        r@ == http_response("200 OK"@, success_page()),
{
    response_text(
        "200 OK",
        "<!DOCTYPE html><html><body><h1>Authorization Successful</h1><p>You can close this window and return to OBS.</p></body></html>",
    )
}

/// The answer to a refused request.
pub fn error_response_text(error: &str) -> (r: String)
    ensures
        r@ == http_response("400 Bad Request"@, error_page(error@)),
{
    let mut html = String::new();
    push_str(&mut html, "<!DOCTYPE html><html><body><h1>Authorization Failed</h1><p>Error: ");
    push_str(&mut html, error);
    push_str(&mut html, "</p></body></html>");
    response_text("400 Bad Request", html.as_str())
}

/// The answer for what the endpoint made of a request.
pub fn callback_response_text(outcome: &Result<OAuthCallbackData, String>) -> (r: String)
    ensures
        match outcome {
            Ok(_) => r@ == http_response("200 OK"@, success_page()),
            Err(e) => r@ == http_response("400 Bad Request"@, error_page(e@)),
        },
{
    match outcome {
        Ok(_) => success_response_text(),
        Err(e) => error_response_text(e.as_str()),
    }
}

// ---------------------------------------------------------------------------
// Percent-encoding and decoding agree
// ---------------------------------------------------------------------------

/// The bytes of one percent-encoded byte.
pub open spec fn byte_code(x: u8) -> Seq<u8> {
    if is_unreserved(x) {
        seq![x]
    } else {
        seq![37u8, upper_digit_byte((x / 16) as nat), upper_digit_byte((x % 16) as nat)]
    }
}

/// The byte of an upper-case hexadecimal digit.
pub open spec fn upper_digit_byte(d: nat) -> u8 {
    if d < 10 {
        (48 + d) as u8
    } else {
        (55 + d) as u8
    }
}

/// The bytes of a percent-encoded byte string, front to back.
pub open spec fn encoded_bytes(b: Seq<u8>) -> Seq<u8>
    decreases b.len(),
{
    if b.len() == 0 {
        Seq::empty()
    } else {
        byte_code(b[0]) + encoded_bytes(b.drop_first())
    }
}

proof fn lemma_encoded_bytes_concat(a: Seq<u8>, c: Seq<u8>)
    ensures
        encoded_bytes(a + c) == encoded_bytes(a) + encoded_bytes(c),
    decreases a.len(),
{
    if a.len() == 0 {
        assert(a + c =~= c);
    } else {
        assert((a + c).drop_first() =~= a.drop_first() + c);
        lemma_encoded_bytes_concat(a.drop_first(), c);
    }
}

proof fn lemma_encoded_bytes_ascii(b: Seq<u8>)
    ensures
        forall|i: int| 0 <= i < encoded_bytes(b).len() ==> #[trigger] encoded_bytes(b)[i] < 128,
    decreases b.len(),
{
    if b.len() > 0 {
        lemma_encoded_bytes_ascii(b.drop_first());
        let x = b[0];
        let head = byte_code(x);
        assert((x / 16) < 16 && (x % 16) < 16);
        assert forall|i: int| 0 <= i < head.len() implies #[trigger] head[i] < 128 by {}
        let e = encoded_bytes(b);
        assert(e =~= head + encoded_bytes(b.drop_first()));
        assert forall|i: int| 0 <= i < e.len() implies #[trigger] e[i] < 128 by {
            if i < head.len() {
                assert(e[i] == head[i]);
            } else {
                assert(e[i] == encoded_bytes(b.drop_first())[i - head.len()]);
            }
        }
    }
}

/// The characters of `url_encode` are ASCII, and their bytes are
/// `encoded_bytes`.
proof fn lemma_url_encode_bytes(b: Seq<u8>)
    ensures
        is_ascii_chars(url_encode(b)),
        url_encode(b).map_values(|c: char| c as u8) == encoded_bytes(b),
    decreases b.len(),
{
    if b.len() > 0 {
        let x = b.last();
        let rest = b.drop_last();
        lemma_url_encode_bytes(rest);
        assert(b =~= rest + seq![x]);
        lemma_encoded_bytes_concat(rest, seq![x]);
        assert(seq![x].drop_first() =~= Seq::<u8>::empty());
        assert(encoded_bytes(Seq::<u8>::empty()) =~= Seq::<u8>::empty());
        assert(encoded_bytes(seq![x]) =~= byte_code(x) + encoded_bytes(seq![x].drop_first()));
        assert(encoded_bytes(seq![x]) =~= byte_code(x));
        let e = encode_byte(x);
        assert(e.map_values(|c: char| c as u8) =~= byte_code(x)) by {
            if !is_unreserved(x) {
                let hi = (x / 16) as nat;
                let lo = (x % 16) as nat;
                assert(hi < 16 && lo < 16);
            }
        }
        assert(url_encode(b) =~= url_encode(rest) + e);
        assert(url_encode(b).map_values(|c: char| c as u8) =~= url_encode(rest).map_values(
            |c: char| c as u8,
        ) + e.map_values(|c: char| c as u8));
        assert forall|i: int| 0 <= i < url_encode(b).len() implies '\0' <= #[trigger] url_encode(b)[i]
            <= '\u{7f}' by {
            if i >= url_encode(rest).len() {
                let j = i - url_encode(rest).len();
                assert(url_encode(b)[i] == e[j]);
                if !is_unreserved(x) {
                    assert((x / 16) < 16 && (x % 16) < 16);
                }
            } else {
                assert(url_encode(b)[i] == url_encode(rest)[i]);
            }
        }
    }
}

/// Decoding from position `p.len() + k` of `p + q` is decoding from `k` of
/// `q`.
proof fn lemma_decode_shift(p: Seq<u8>, q: Seq<u8>, k: int)
    requires
        0 <= k,
    ensures
        decode_from(p + q, p.len() + k) == decode_from(q, k),
    decreases q.len() - k,
{
    let s = p + q;
    let i = p.len() + k;
    if k < q.len() {
        assert(s[i] == q[k]);
        if k + 1 < q.len() {
            assert(s[i + 1] == q[k + 1]);
        }
        if k + 2 < q.len() {
            assert(s[i + 2] == q[k + 2]);
        }
        if k + 3 < q.len() {
            assert(s[i + 3] == q[k + 3]);
        }
        lemma_decode_shift(p, q, k + 1);
        if k + 3 <= q.len() {
            lemma_decode_shift(p, q, k + 3);
        }
    }
}

/// Decoding the encoding of `b`, followed by text that does not start with a
/// continuation byte, gives `b` back in front of the rest's decoding.
#[verifier::spinoff_prover]
#[verifier::rlimit(30)]
proof fn lemma_decode_encoded(b: Seq<u8>, rest: Seq<u8>)
    requires
        rest.len() > 0 ==> rest[0] < 128,
    ensures
        decode_from(encoded_bytes(b) + rest, 0) == joined(b, decode_from(rest, 0)),
    decreases b.len(),
{
    if b.len() == 0 {
        assert(encoded_bytes(b) + rest =~= rest);
        if decode_from(rest, 0) is Some {
            assert(b + decode_from(rest, 0)->0 =~= decode_from(rest, 0)->0);
        }
    } else {
        let x = b[0];
        let tail = encoded_bytes(b.drop_first()) + rest;
        let code = byte_code(x);
        let whole = encoded_bytes(b) + rest;
        assert(whole =~= code + tail);
        lemma_decode_encoded(b.drop_first(), rest);
        lemma_encoded_bytes_ascii(b.drop_first());
        assert(tail.len() > 0 ==> tail[0] < 128) by {
            if encoded_bytes(b.drop_first()).len() > 0 {
                assert(tail[0] == encoded_bytes(b.drop_first())[0]);
            } else {
                assert(tail =~= rest);
            }
        }
        lemma_decode_shift(code, tail, 0);
        if is_unreserved(x) {
            assert(whole[0] == x);
            assert(decode_from(whole, 0) == prepend(x, decode_from(whole, 1)));
        } else {
            let hi = (x / 16) as nat;
            let lo = (x % 16) as nat;
            assert(whole[0] == 37u8);
            assert(whole[1] == upper_digit_byte(hi));
            assert(whole[2] == upper_digit_byte(lo));
            if whole.len() > 3 {
                assert(whole[3] == tail[0]);
            }
            assert(parse_hex_pair(whole[1], whole[2]) == Some(x));
            assert(decode_from(whole, 0) == prepend(x, decode_from(whole, 3)));
        }
        if decode_from(rest, 0) is Some {
            assert(seq![x] + (b.drop_first() + decode_from(rest, 0)->0) =~= b + decode_from(rest, 0)->0);
        }
    }
}

/// What percent-encoding writes, URL decoding reads back: the decoding of
/// `simple_url_encode`'s output is defined and gives the original bytes.
pub proof fn lemma_url_decode_undoes_encode(b: Seq<u8>)
    ensures
        url_decoded(url_encode(b)) == Some(b),
{
    lemma_url_encode_bytes(b);
    is_ascii_chars_encode_utf8(url_encode(b));
    assert(encode_utf8(url_encode(b)) =~= url_encode(b).map_values(|c: char| c as u8));
    lemma_decode_encoded(b, Seq::empty());
    assert(encoded_bytes(b) + Seq::<u8>::empty() =~= encoded_bytes(b));
    assert(b + Seq::<u8>::empty() =~= b);
}

} // verus!
