//! Character-level helpers over `str` and `String`, with specifications over
//! `Seq<char>`: whitespace trimming, ASCII case folding, and number formatting.

use vstd::prelude::*;
use vstd::utf8::{decode_utf8, valid_utf8};

verus! {

/// Appends one character to a string (`String::push`).
#[verifier::external_body]
pub(crate) fn push_char(s: &mut String, c: char)
    ensures
        final(s)@ == old(s)@.push(c),
{
    s.push(c);
}

/// Whether two string slices hold the same characters.
pub(crate) fn str_eq(a: &str, b: &str) -> (res: bool)
    ensures
        res == (a@ == b@),
{
    let x = chars_of(a);
    let y = chars_of(b);
    if x.len() != y.len() {
        return false;
    }
    let mut i: usize = 0;
    while i < x.len()
        invariant
            x@ == a@,
            y@ == b@,
            x.len() == y.len(),
            i <= x.len(),
            forall|j: int| 0 <= j < i ==> x@[j] == y@[j],
        decreases x.len() - i,
    {
        if x[i] != y[i] {
            assert(a@[i as int] != b@[i as int]);
            return false;
        }
        i = i + 1;
    }
    assert(a@ =~= b@);
    true
}

/// The characters of `s`, in order.
pub fn chars_of(s: &str) -> (res: Vec<char>)
    ensures
        res@ == s@,
{
    let mut res: Vec<char> = Vec::new();
    for c in it: s.chars()
        invariant
            it.seq() == s@,
            res@ == it.seq().take(it.index() as int),
    {
        res.push(c);
    }
    res
}

/// A string holding `v[start..end]`.
pub fn string_from_range(v: &Vec<char>, start: usize, end: usize) -> (res: String)
    requires
        start <= end <= v.len(),
    ensures
        res@ == v@.subrange(start as int, end as int),
{
    let mut res = String::new();
    let mut i = start;
    while i < end
        invariant
            start <= i <= end <= v.len(),
            res@ == v@.subrange(start as int, i as int),
        decreases end - i,
    {
        push_char(&mut res, v[i]);
        assert(v@.subrange(start as int, i + 1) == v@.subrange(start as int, i as int).push(v@[i as int]));
        i += 1;
    }
    res
}

/// A string holding all of `v`.
pub fn string_from_chars(v: &Vec<char>) -> (res: String)
    ensures
        res@ == v@,
{
    let res = string_from_range(v, 0, v.len());
    assert(v@.subrange(0, v@.len() as int) == v@);
    res
}

/// Appends the characters of `v` to `s`.
pub fn push_chars(s: &mut String, v: &Vec<char>)
    ensures
        final(s)@ == old(s)@ + v@,
{
    let mut i: usize = 0;
    while i < v.len()
        invariant
            i <= v.len(),
            s@ == old(s)@ + v@.subrange(0, i as int),
        decreases v.len() - i,
    {
        push_char(s, v[i]);
        assert(v@.subrange(0, i + 1) == v@.subrange(0, i as int).push(v@[i as int]));
        i += 1;
    }
    assert(v@.subrange(0, v@.len() as int) == v@);
}

/// Appends a string slice to `s`.
pub fn push_str(s: &mut String, t: &str)
    ensures
        final(s)@ == old(s)@ + t@,
{
    let v = chars_of(t);
    push_chars(s, &v);
}

/// An owned copy of a string slice.
pub fn to_owned_string(t: &str) -> (res: String)
    ensures
        res@ == t@,
{
    let mut res = String::new();
    push_str(&mut res, t);
    assert(Seq::<char>::empty() + t@ == t@);
    res
}

/// Unicode `White_Space`, as `char::is_whitespace` documents it.
pub open spec fn is_ws(c: char) -> bool {
    let u = c as u32;
    ||| 9 <= u <= 13
    ||| u == 32
    ||| u == 0x85
    ||| u == 0xA0
    ||| u == 0x1680
    ||| 0x2000 <= u <= 0x200A
    ||| u == 0x2028
    ||| u == 0x2029
    ||| u == 0x202F
    ||| u == 0x205F
    ||| u == 0x3000
}

/// Whether `c` is Unicode whitespace.
pub fn is_whitespace(c: char) -> (b: bool)
    ensures
        b == is_ws(c),
{
    let u = c as u32;
    (9 <= u && u <= 13) || u == 32 || u == 0x85 || u == 0xA0 || u == 0x1680 || (0x2000 <= u && u
        <= 0x200A) || u == 0x2028 || u == 0x2029 || u == 0x202F || u == 0x205F || u == 0x3000
}

/// `s` without its leading whitespace.
pub open spec fn trim_start(s: Seq<char>) -> Seq<char>
    decreases s.len(),
{
    if s.len() > 0 && is_ws(s[0]) {
        trim_start(s.drop_first())
    } else {
        s
    }
}

/// `s` without its trailing whitespace.
pub open spec fn trim_end(s: Seq<char>) -> Seq<char>
    decreases s.len(),
{
    if s.len() > 0 && is_ws(s.last()) {
        trim_end(s.drop_last())
    } else {
        s
    }
}

/// `s` without leading and trailing whitespace (`str::trim`).
pub open spec fn trim(s: Seq<char>) -> Seq<char> {
    trim_end(trim_start(s))
}

/// Whether `s` consists of whitespace only (`s.trim().is_empty()`).
pub open spec fn blank(s: Seq<char>) -> bool {
    forall|i: int| 0 <= i < s.len() ==> is_ws(#[trigger] s[i])
}

proof fn lemma_trim_start_blank(s: Seq<char>)
    ensures
        trim_start(s).len() == 0 <==> blank(s),
        trim_start(s).len() > 0 ==> !is_ws(trim_start(s)[0]),
    decreases s.len(),
{
    if s.len() > 0 && is_ws(s[0]) {
        lemma_trim_start_blank(s.drop_first());
        if blank(s.drop_first()) {
            assert forall|i: int| 0 <= i < s.len() implies is_ws(#[trigger] s[i]) by {
                if i > 0 {
                    assert(s[i] == s.drop_first()[i - 1]);
                }
            }
        }
        if blank(s) {
            assert forall|i: int| 0 <= i < s.drop_first().len() implies is_ws(
                #[trigger] s.drop_first()[i],
            ) by {
                assert(s.drop_first()[i] == s[i + 1]);
            }
        }
    } else if s.len() > 0 {
        assert(!is_ws(s[0]));
    }
}

proof fn lemma_trim_end_keeps_first(s: Seq<char>)
    requires
        s.len() > 0,
        !is_ws(s[0]),
    ensures
        trim_end(s).len() > 0,
    decreases s.len(),
{
    if is_ws(s.last()) {
        assert(s.len() > 1);
        assert(s.drop_last()[0] == s[0]);
        lemma_trim_end_keeps_first(s.drop_last());
    }
}

/// The trimmed text is empty exactly when the text is blank.
pub proof fn lemma_trim_empty_iff_blank(s: Seq<char>)
    ensures
        trim(s).len() == 0 <==> blank(s),
{
    lemma_trim_start_blank(s);
    if trim_start(s).len() > 0 {
        lemma_trim_end_keeps_first(trim_start(s));
    }
}

/// Whether the text is blank (`s.trim().is_empty()`).
pub fn is_blank(s: &str) -> (b: bool)
    ensures
        b == blank(s@),
        b == (trim(s@).len() == 0),
{
    proof {
        lemma_trim_empty_iff_blank(s@);
    }
    let v = chars_of(s);
    let mut i: usize = 0;
    while i < v.len()
        invariant
            v@ == s@,
            i <= v.len(),
            forall|j: int| 0 <= j < i ==> is_ws(#[trigger] v@[j]),
        decreases v.len() - i,
    {
        if !is_whitespace(v[i]) {
            assert(!is_ws(s@[i as int]));
            proof {
                lemma_trim_empty_iff_blank(s@);
            }
            return false;
        }
        i += 1;
    }
    true
}

/// The bounds of `v.trim()` inside `v`.
pub fn trim_bounds(v: &Vec<char>) -> (r: (usize, usize))
    ensures
        r.0 <= r.1 <= v.len(),
        v@.subrange(r.0 as int, r.1 as int) == trim(v@),
{
    let n = v.len();
    let mut i: usize = 0;
    assert(v@.subrange(0, n as int) == v@);
    while i < n && is_whitespace(v[i])
        invariant
            i <= n == v.len(),
            trim_start(v@) == trim_start(v@.subrange(i as int, n as int)),
        decreases n - i,
    {
        assert(v@.subrange(i as int, n as int).drop_first() == v@.subrange(i + 1, n as int));
        i += 1;
    }
    assert(trim_start(v@) == v@.subrange(i as int, n as int));
    let mut j: usize = n;
    while j > i && is_whitespace(v[j - 1])
        invariant
            i <= j <= n == v.len(),
            trim(v@) == trim_end(v@.subrange(i as int, j as int)),
        decreases j,
    {
        assert(v@.subrange(i as int, j as int).drop_last() == v@.subrange(i as int, j - 1));
        j -= 1;
    }
    (i, j)
}

/// `s.trim().to_string()`.
pub fn trim_string(s: &str) -> (res: String)
    ensures
        res@ == trim(s@),
{
    let v = chars_of(s);
    let (a, b) = trim_bounds(&v);
    string_from_range(&v, a, b)
}

/// The characters of `s.trim()`.
pub fn trim_chars(s: &str) -> (res: Vec<char>)
    ensures
        res@ == trim(s@),
{
    let v = chars_of(s);
    let (a, b) = trim_bounds(&v);
    let mut res: Vec<char> = Vec::new();
    let mut i = a;
    while i < b
        invariant
            a <= i <= b <= v.len(),
            res@ == v@.subrange(a as int, i as int),
        decreases b - i,
    {
        res.push(v[i]);
        assert(v@.subrange(a as int, i + 1) == v@.subrange(a as int, i as int).push(v@[i as int]));
        i += 1;
    }
    res
}

/// ASCII lower-case of one character (`char::to_ascii_lowercase`).
pub open spec fn ascii_lower(c: char) -> char {
    if 65 <= (c as u32) <= 90 {
        ((c as u32 + 32) as u8) as char
    } else {
        c
    }
}

/// ASCII lower-case of a text (`str::to_ascii_lowercase`).
pub open spec fn ascii_lower_seq(s: Seq<char>) -> Seq<char> {
    s.map_values(|c: char| ascii_lower(c))
}

/// ASCII lower-case of one character.
pub fn to_ascii_lower(c: char) -> (r: char)
    ensures
        r == ascii_lower(c),
{
    let u = c as u32;
    if 65 <= u && u <= 90 {
        let b = (u + 32) as u8;
        b as char
    } else {
        c
    }
}

/// `s.to_ascii_lowercase()`.
pub fn ascii_lowercase(s: &str) -> (res: String)
    ensures
        res@ == ascii_lower_seq(s@),
{
    let v = chars_of(s);
    let mut res = String::new();
    let mut i: usize = 0;
    while i < v.len()
        invariant
            v@ == s@,
            i <= v.len(),
            res@ == ascii_lower_seq(v@.subrange(0, i as int)),
        decreases v.len() - i,
    {
        let c = to_ascii_lower(v[i]);
        push_char(&mut res, c);
        assert(ascii_lower_seq(v@.subrange(0, i + 1)) == ascii_lower_seq(v@.subrange(0, i as int)).push(
            ascii_lower(v@[i as int]),
        ));
        i += 1;
    }
    assert(v@.subrange(0, v@.len() as int) == v@);
    res
}

/// The character of a digit value below 16, lower-case for letters.
pub open spec fn digit_char(d: nat) -> char {
    if d < 10 {
        ((48 + d) as u8) as char
    } else {
        ((87 + d) as u8) as char
    }
}

/// The character of a digit value below 16, upper-case for letters.
pub open spec fn digit_char_upper(d: nat) -> char {
    if d < 10 {
        ((48 + d) as u8) as char
    } else {
        ((55 + d) as u8) as char
    }
}

/// Decimal digits of `n`, without leading zeros (`format!("{}", n)`).
pub open spec fn decimal(n: nat) -> Seq<char>
    decreases n,
{
    if n < 10 {
        seq![digit_char(n)]
    } else {
        decimal(n / 10).push(digit_char(n % 10))
    }
}

/// Lower-case hexadecimal digits of `n`, without leading zeros
/// (`format!("{:x}", n)`).
pub open spec fn hex_lower(n: nat) -> Seq<char>
    decreases n,
{
    if n < 16 {
        seq![digit_char(n)]
    } else {
        hex_lower(n / 16).push(digit_char(n % 16))
    }
}

/// Decimal text of a signed integer (`format!("{}", n)`).
pub open spec fn decimal_int(n: int) -> Seq<char> {
    if n < 0 {
        seq!['-'].add(decimal((-n) as nat))
    } else {
        decimal(n as nat)
    }
}

/// The character of a digit value below 16, lower-case for letters.
pub fn digit_to_char(d: u8) -> (c: char)
    requires
        d < 16,
    ensures
        c == digit_char(d as nat),
{
    if d < 10 {
        (48 + d) as char
    } else {
        (87 + d) as char
    }
}

/// The character of a digit value below 16, upper-case for letters.
pub fn digit_to_char_upper(d: u8) -> (c: char)
    requires
        d < 16,
    ensures
        c == digit_char_upper(d as nat),
{
    if d < 10 {
        (48 + d) as char
    } else {
        (55 + d) as char
    }
}

/// Appends the decimal digits of `n`.
pub fn push_decimal(s: &mut String, n: u64)
    ensures
        final(s)@ == old(s)@ + decimal(n as nat),
    decreases n,
{
    if n >= 10 {
        push_decimal(s, n / 10);
    }
    push_char(s, digit_to_char((n % 10) as u8));
    proof {
        if n >= 10 {
            assert(old(s)@ + decimal(n as nat) == (old(s)@ + decimal((n / 10) as nat)).push(
                digit_char((n % 10) as nat),
            ));
        } else {
            assert(old(s)@ + decimal(n as nat) == old(s)@.push(digit_char(n as nat)));
        }
    }
}

/// Appends the lower-case hexadecimal digits of `n`.
pub fn push_hex_lower(s: &mut String, n: u64)
    ensures
        final(s)@ == old(s)@ + hex_lower(n as nat),
    decreases n,
{
    if n >= 16 {
        push_hex_lower(s, n / 16);
    }
    push_char(s, digit_to_char((n % 16) as u8));
    proof {
        if n >= 16 {
            assert(old(s)@ + hex_lower(n as nat) == (old(s)@ + hex_lower((n / 16) as nat)).push(
                digit_char((n % 16) as nat),
            ));
        } else {
            assert(old(s)@ + hex_lower(n as nat) == old(s)@.push(digit_char(n as nat)));
        }
    }
}

/// Appends the decimal text of a signed integer.
pub fn push_decimal_i64(s: &mut String, n: i64)
    ensures
        final(s)@ == old(s)@ + decimal_int(n as int),
{
    if n < 0 {
        push_char(s, '-');
        let m: u64 = (-(n as i128)) as u64;
        push_decimal(s, m);
        assert(old(s)@ + decimal_int(n as int) == old(s)@.push('-') + decimal(m as nat));
    } else {
        push_decimal(s, n as u64);
    }
}

/// Two hexadecimal digits of a byte, lower-case (`format!("{:02x}", b)`).
pub open spec fn hex2_lower(b: u8) -> Seq<char> {
    seq![digit_char((b / 16) as nat), digit_char((b % 16) as nat)]
}

/// Two hexadecimal digits of a byte, upper-case (`format!("{:02X}", b)`).
pub open spec fn hex2_upper(b: u8) -> Seq<char> {
    seq![digit_char_upper((b / 16) as nat), digit_char_upper((b % 16) as nat)]
}

/// Appends two lower-case hexadecimal digits of `b`.
pub fn push_hex2_lower(s: &mut String, b: u8)
    ensures
        final(s)@ == old(s)@ + hex2_lower(b),
{
    push_char(s, digit_to_char(b / 16));
    push_char(s, digit_to_char(b % 16));
    assert(old(s)@ + hex2_lower(b) == old(s)@.push(digit_char((b / 16) as nat)).push(
        digit_char((b % 16) as nat),
    ));
}

/// Appends two upper-case hexadecimal digits of `b`.
pub fn push_hex2_upper(s: &mut String, b: u8)
    ensures
        final(s)@ == old(s)@ + hex2_upper(b),
{
    push_char(s, digit_to_char_upper(b / 16));
    push_char(s, digit_to_char_upper(b % 16));
    assert(old(s)@ + hex2_upper(b) == old(s)@.push(digit_char_upper((b / 16) as nat)).push(
        digit_char_upper((b % 16) as nat),
    ));
}


proof fn lemma_trim_start_idem(s: Seq<char>)
    ensures
        trim_start(trim_start(s)) == trim_start(s),
        trim_end(trim_start(s)).len() > 0 ==> !is_ws(trim_end(trim_start(s))[0]),
    decreases s.len(),
{
    if s.len() > 0 && is_ws(s[0]) {
        lemma_trim_start_idem(s.drop_first());
    } else {
        lemma_trim_end_prefix(s);
    }
}

proof fn lemma_trim_end_prefix(s: Seq<char>)
    requires
        s.len() > 0 ==> !is_ws(s[0]),
    ensures
        trim_end(s).len() > 0 ==> trim_end(s)[0] == s[0],
    decreases s.len(),
{
    if s.len() > 0 && is_ws(s.last()) {
        if s.len() > 1 {
            assert(s.drop_last()[0] == s[0]);
        }
        lemma_trim_end_prefix(s.drop_last());
    }
}

proof fn lemma_trim_end_idem(s: Seq<char>)
    ensures
        trim_end(trim_end(s)) == trim_end(s),
        trim_end(s).len() > 0 ==> !is_ws(trim_end(s).last()),
    decreases s.len(),
{
    if s.len() > 0 && is_ws(s.last()) {
        lemma_trim_end_idem(s.drop_last());
    }
}

proof fn lemma_trim_start_noop(s: Seq<char>)
    requires
        s.len() > 0 ==> !is_ws(s[0]),
    ensures
        trim_start(s) == s,
{
}

/// Trimming twice is trimming once.
pub proof fn lemma_trim_idempotent(s: Seq<char>)
    ensures
        trim(trim(s)) == trim(s),
{
    lemma_trim_start_idem(s);
    let t = trim(s);
    lemma_trim_start_noop(t);
    lemma_trim_end_idem(trim_start(s));
}


/// The position of the first `c` in `s`.
pub open spec fn index_of(s: Seq<char>, c: char) -> Option<int>
    decreases s.len(),
{
    if s.len() == 0 {
        None
    } else if s[0] == c {
        Some(0)
    } else {
        match index_of(s.drop_first(), c) {
            Some(i) => Some(i + 1),
            None => None,
        }
    }
}

/// `index_of` finds the first occurrence, and only where there is one.
pub proof fn lemma_index_of(s: Seq<char>, c: char)
    ensures
        index_of(s, c) matches Some(i) ==> 0 <= i < s.len() && s[i] == c && forall|j: int|
            0 <= j < i ==> s[j] != c,
        index_of(s, c) is None ==> forall|j: int| 0 <= j < s.len() ==> s[j] != c,
    decreases s.len(),
{
    if s.len() > 0 && s[0] != c {
        lemma_index_of(s.drop_first(), c);
        if index_of(s.drop_first(), c) is None {
            assert forall|j: int| 0 <= j < s.len() implies s[j] != c by {
                if j > 0 {
                    assert(s[j] == s.drop_first()[j - 1]);
                }
            }
        } else {
            let i = index_of(s.drop_first(), c)->0;
            assert forall|j: int| 0 <= j < i + 1 implies s[j] != c by {
                if j > 0 {
                    assert(s[j] == s.drop_first()[j - 1]);
                }
            }
        }
    }
}

/// The first `c` in `v[start..end]`, as a position in `v`.
pub fn find_char(v: &Vec<char>, start: usize, end: usize, c: char) -> (r: Option<usize>)
    requires
        start <= end <= v.len(),
    ensures
        match index_of(v@.subrange(start as int, end as int), c) {
            Some(i) => r == Some((start + i) as usize),
            None => r is None,
        },
        r matches Some(k) ==> start <= k < end && v@[k as int] == c,
{
    let ghost sub = v@.subrange(start as int, end as int);
    proof {
        lemma_index_of(sub, c);
    }
    let mut i = start;
    while i < end
        invariant
            start <= i <= end <= v.len(),
            sub == v@.subrange(start as int, end as int),
            forall|j: int| start <= j < i ==> v@[j] != c,
            index_of(sub, c) matches Some(k) ==> k >= i - start && sub[k] == c && forall|j: int|
                0 <= j < k ==> sub[j] != c,
            index_of(sub, c) is None ==> forall|j: int| 0 <= j < sub.len() ==> sub[j] != c,
        decreases end - i,
    {
        if v[i] == c {
            proof {
                if let Some(k) = index_of(sub, c) {
                    if k > i - start {
                        assert(sub[i - start] == c);
                    }
                } else {
                    assert(sub[i - start] == c);
                }
            }
            return Some(i);
        }
        proof {
            if let Some(k) = index_of(sub, c) {
                assert(sub[i - start] != c);
            }
        }
        i += 1;
    }
    proof {
        if let Some(k) = index_of(sub, c) {
            assert(sub[k] == v@[start + k]);
        }
    }
    None
}

/// What `String::from_utf8_lossy` makes of a byte string.
pub uninterp spec fn lossy_utf8(bytes: Seq<u8>) -> Seq<char>;

/// Decodes bytes as UTF-8, replacing each invalid sequence with U+FFFD
/// (`String::from_utf8_lossy`). The contract states the result by name and,
/// for valid UTF-8, as its plain decoding, as the documentation says.
#[verifier::external_body]
pub(crate) fn utf8_lossy_string(bytes: &[u8]) -> (res: String)
    ensures
        res@ == lossy_utf8(bytes@),
        valid_utf8(bytes@) ==> res@ == decode_utf8(bytes@),
{
    String::from_utf8_lossy(bytes).into_owned()
}


/// The texts of `list` joined by `sep` (`[..].join(sep)`).
pub open spec fn join(list: Seq<Seq<char>>, sep: Seq<char>) -> Seq<char>
    decreases list.len(),
{
    if list.len() == 0 {
        Seq::empty()
    } else if list.len() == 1 {
        list[0]
    } else {
        join(list.drop_last(), sep) + sep + list.last()
    }
}

/// The views of a vector of strings.
pub open spec fn views(v: Seq<String>) -> Seq<Seq<char>> {
    v.map_values(|s: String| s@)
}

/// Joins strings with a separator.
pub fn join_strings(list: &Vec<String>, sep: &str) -> (res: String)
    ensures
        res@ == join(views(list@), sep@),
{
    let mut res = String::new();
    let ghost lv = views(list@);
    let mut i: usize = 0;
    while i < list.len()
        invariant
            i <= list.len(),
            lv == views(list@),
            res@ == join(lv.subrange(0, i as int), sep@),
        decreases list.len() - i,
    {
        assert(lv.subrange(0, i + 1).drop_last() == lv.subrange(0, i as int));
        assert(lv[i as int] == list@[i as int]@);
        if i > 0 {
            push_str(&mut res, sep);
        } else {
            assert(res@ + list@[0]@ == list@[0]@);
        }
        push_str(&mut res, list[i].as_str());
        i += 1;
    }
    assert(lv.subrange(0, list.len() as int) == lv);
    res
}

/// What `str::to_lowercase` gives for `s`: its Unicode lowercase form, by
/// the Unicode lowercase mapping of each character and the final-sigma rule,
/// which depend on the text alone.
pub uninterp spec fn unicode_lowercase(s: Seq<char>) -> Seq<char>;

/// `s` in Unicode lowercase (`str::to_lowercase`).
#[verifier::external_body]
pub(crate) fn to_lowercase(s: &str) -> (res: String)
    ensures
        res@ == unicode_lowercase(s@),
{
    s.to_lowercase()
}

/// Whether `v` starts with `prefix`.
pub fn starts_with(v: &Vec<char>, prefix: &str) -> (b: bool)
    ensures
        b == prefix@.is_prefix_of(v@),
{
    let p = chars_of(prefix);
    if p.len() > v.len() {
        return false;
    }
    let mut i: usize = 0;
    while i < p.len()
        invariant
            p@ == prefix@,
            p.len() <= v.len(),
            i <= p.len(),
            forall|j: int| 0 <= j < i ==> p@[j] == v@[j],
        decreases p.len() - i,
    {
        if p[i] != v[i] {
            assert(p@[i as int] != v@.subrange(0, p@.len() as int)[i as int]);
            return false;
        }
        i += 1;
    }
    assert(p@ =~= v@.subrange(0, p@.len() as int));
    true
}

/// `s` with each occurrence of `pat` replaced by `rep`, scanning left to
/// right without overlap (`str::replace`).
pub open spec fn replace_all(s: Seq<char>, pat: Seq<char>, rep: Seq<char>) -> Seq<char>
    decreases s.len(),
{
    if pat.len() == 0 || s.len() < pat.len() {
        s
    } else if s.subrange(0, pat.len() as int) == pat {
        rep + replace_all(s.subrange(pat.len() as int, s.len() as int), pat, rep)
    } else {
        seq![s[0]] + replace_all(s.drop_first(), pat, rep)
    }
}

fn matches_at(v: &Vec<char>, i: usize, p: &Vec<char>) -> (b: bool)
    requires
        i <= v.len(),
    ensures
        b == (p.len() <= v.len() - i && v@.subrange(i as int, i + p.len()) == p@),
{
    if p.len() > v.len() - i {
        return false;
    }
    let mut k: usize = 0;
    while k < p.len()
        invariant
            p.len() <= v.len() - i,
            k <= p.len(),
            forall|j: int| 0 <= j < k ==> p@[j] == v@[i + j],
        decreases p.len() - k,
    {
        if p[k] != v[i + k] {
            assert(v@.subrange(i as int, i + p.len())[k as int] != p@[k as int]);
            return false;
        }
        k += 1;
    }
    assert(v@.subrange(i as int, i + p.len()) =~= p@);
    true
}

/// `s.replace(pat, rep)` for a non-empty pattern.
pub fn replace_str(s: &str, pat: &str, rep: &str) -> (res: String)
    requires
        pat@.len() > 0,
    ensures
        res@ == replace_all(s@, pat@, rep@),
{
    let v = chars_of(s);
    let p = chars_of(pat);
    let n = v.len();
    let mut res = String::new();
    let mut i: usize = 0;
    assert(v@.subrange(0, n as int) == v@);
    assert(Seq::<char>::empty() + replace_all(v@, pat@, rep@) == replace_all(v@, pat@, rep@));
    while i < n
        invariant
            v@ == s@,
            p@ == pat@,
            p@.len() > 0,
            i <= n == v.len(),
            replace_all(s@, pat@, rep@) == res@ + replace_all(v@.subrange(i as int, n as int), pat@, rep@),
        decreases n - i,
    {
        let ghost rest = v@.subrange(i as int, n as int);
        if matches_at(&v, i, &p) {
            assert(rest.subrange(0, p@.len() as int) == p@);
            assert(rest.subrange(p@.len() as int, rest.len() as int) == v@.subrange(i + p@.len(), n as int));
            push_str(&mut res, rep);
            i += p.len();
        } else {
            proof {
                if rest.len() >= p@.len() {
                    assert(rest.subrange(0, p@.len() as int) == v@.subrange(i as int, i + p@.len()));
                }
            }
            assert(rest.drop_first() == v@.subrange(i + 1, n as int));
            assert(rest[0] == v@[i as int]);
            let ghost before = res@;
            push_char(&mut res, v[i]);
            assert(before + (seq![v@[i as int]] + replace_all(rest.drop_first(), pat@, rep@)) == res@
                + replace_all(rest.drop_first(), pat@, rep@));
            i += 1;
        }
    }
    assert(v@.subrange(n as int, n as int).len() == 0);
    assert(res@ + Seq::<char>::empty() == res@);
    res
}

} // verus!
