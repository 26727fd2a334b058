//! Queries over memories, and the cursors by which their pages follow one
//! another.
use crate::decimal::{decimal, i64_text, is_digit, law_decimal_reads_back, parse_i64, read_signed};
use crate::decimal::{digits, law_digits_read_back};
use crate::memory::{MemoryKind, ScopeKey, ScopeModel};
use crate::model::{copy_opt, copy_texts, opt, views};
use crate::text::{from_chars, to_chars};
use base64::prelude::BASE64_STANDARD;
use base64::Engine;
use vstd::prelude::*;
use vstd::utf8::{decode_utf8, encode_utf8, valid_utf8};

verus! {

/// What to look for.
#[derive(Debug)]
pub struct Query {
    pub scope: ScopeKey,
    pub text: String,
    pub kinds: Option<Vec<MemoryKind>>,
    pub tags_any: Option<Vec<String>>,
    pub limit: usize,
    /// The earliest creation time, in milliseconds since the epoch.
    pub since_ms: Option<i64>,
    /// The latest creation time, in milliseconds since the epoch.
    pub until_ms: Option<i64>,
    /// Where the page before this one ended.
    pub cursor: Option<String>,
}

/// The model of a query.
pub struct QueryModel {
    pub scope: ScopeModel,
    pub text: Seq<char>,
    pub kinds: Option<Seq<MemoryKind>>,
    pub tags_any: Option<Seq<Seq<char>>>,
    pub limit: usize,
    pub since_ms: Option<i64>,
    pub until_ms: Option<i64>,
    pub cursor: Option<Seq<char>>,
}

impl View for Query {
    type V = QueryModel;

    open spec fn view(&self) -> QueryModel {
        QueryModel {
            scope: self.scope@,
            text: self.text@,
            kinds: opt(self.kinds),
            tags_any: match self.tags_any {
                Some(t) => Some(views(t@)),
                None => None,
            },
            limit: self.limit,
            since_ms: self.since_ms,
            until_ms: self.until_ms,
            cursor: opt(self.cursor),
        }
    }
}

impl Clone for Query {
    fn clone(&self) -> (r: Query)
        ensures
            r@ == self@,
    {
        Query {
            scope: self.scope.clone(),
            text: self.text.clone(),
            kinds: match &self.kinds {
                Some(k) => {
                    let copied = k.clone();
                    assert(copied@ == k@);
                    Some(copied)
                },
                None => None,
            },
            tags_any: match &self.tags_any {
                Some(t) => Some(copy_texts(t)),
                None => None,
            },
            limit: self.limit,
            since_ms: self.since_ms,
            until_ms: self.until_ms,
            cursor: copy_opt(&self.cursor),
        }
    }
}

/// The base64 form of some bytes, in the standard alphabet and with padding.
pub uninterp spec fn base64_text(bytes: Seq<u8>) -> Seq<char>;

/// The bytes that a base64 text stands for.
pub uninterp spec fn base64_bytes(text: Seq<char>) -> Option<Seq<u8>>;

/// `BASE64_STANDARD.encode` of the `base64` crate: the text for `bytes`, which
/// decodes back to them.
#[verifier::external_body]
fn base64_encode(bytes: &[u8]) -> (r: String)
    ensures
        r@ == base64_text(bytes@),
        base64_bytes(r@) == Some(bytes@),
{
    BASE64_STANDARD.encode(bytes)
}

/// `BASE64_STANDARD.decode` of the `base64` crate: the bytes that `text` stands
/// for, if it stands for any.
#[verifier::external_body]
fn base64_decode(text: &str) -> (r: Option<Vec<u8>>)
    ensures
        match r {
            Some(bytes) => base64_bytes(text@) == Some(bytes@),
            None => base64_bytes(text@) is None,
        },
{
    BASE64_STANDARD.decode(text).ok()
}

/// `String::from_utf8`: the text that some bytes encode, if they are UTF-8.
#[verifier::external_body]
fn utf8_text(bytes: Vec<u8>) -> (r: Option<String>)
    ensures
        match r {
            Some(s) => valid_utf8(bytes@) && s@ == decode_utf8(bytes@),
            None => !valid_utf8(bytes@),
        },
{
    String::from_utf8(bytes).ok()
}

/// The first place of `c` in `s`, or the length of `s` where there is none.
pub open spec fn first_of(s: Seq<char>, c: char) -> int
    decreases s.len(),
{
    if s.len() == 0 || s[0] == c {
        0
    } else {
        1 + first_of(s.drop_first(), c)
    }
}

proof fn first_of_is(s: Seq<char>, c: char, at: int)
    requires
        0 <= at <= s.len(),
        forall|k: int| 0 <= k < at ==> s[k] != c,
        at < s.len() ==> s[at] == c,
    ensures
        first_of(s, c) == at,
    decreases s.len(),
{
    if at > 0 {
        let rest = s.drop_first();
        assert forall|k: int| 0 <= k < at - 1 implies rest[k] != c by {
            assert(rest[k] == s[k + 1]);
        }
        first_of_is(rest, c, at - 1);
    }
}

/// The position that a cursor text stands for: a creation time and an id, with
/// the first colon between them.
pub open spec fn position_of(s: Seq<char>) -> Option<(i64, Seq<char>)> {
    let colon = first_of(s, ':');
    if colon == s.len() {
        None
    } else {
        match read_signed(s.take(colon)) {
            Some(n) if i64::MIN <= n <= i64::MAX => Some((n as i64, s.skip(colon + 1))),
            _ => None,
        }
    }
}

/// The position that a cursor stands for.
pub open spec fn cursor_position(cursor: Seq<char>) -> Option<(i64, Seq<char>)> {
    match base64_bytes(cursor) {
        Some(bytes) if valid_utf8(bytes) => position_of(decode_utf8(bytes)),
        _ => None,
    }
}

/// The text inside a cursor.
pub open spec fn cursor_text(created_at_ms: i64, id: Seq<char>) -> Seq<char> {
    decimal(created_at_ms as int) + seq![':'] + id
}

proof fn decimal_has_no_colon(n: int)
    ensures
        forall|k: int| 0 <= k < decimal(n).len() ==> decimal(n)[k] != ':',
{
    let m = if n < 0 {
        (-n) as nat
    } else {
        n as nat
    };
    law_digits_read_back(m);
    assert forall|k: int| 0 <= k < decimal(n).len() implies decimal(n)[k] != ':' by {
        if n < 0 {
            if k > 0 {
                assert(is_digit(digits(m)[k - 1]));
            }
        } else {
            assert(is_digit(digits(m)[k]));
        }
    }
}

/// The text inside a cursor reads back as the time and id it was made of,
/// whatever the id holds.
pub proof fn law_position_reads_back(created_at_ms: i64, id: Seq<char>)
    ensures
        position_of(cursor_text(created_at_ms, id)) == Some((created_at_ms, id)),
{
    let n = created_at_ms as int;
    let s = cursor_text(created_at_ms, id);
    decimal_has_no_colon(n);
    law_decimal_reads_back(n);
    first_of_is(s, ':', decimal(n).len() as int);
    assert(s.take(decimal(n).len() as int) == decimal(n));
    assert(s.skip(decimal(n).len() as int + 1) == id);
}

/// Reads the position out of a cursor's inner text.
pub fn parse_position(s: &str) -> (r: Option<(i64, String)>)
    ensures
        match r {
            Some(p) => position_of(s@) == Some((p.0, p.1@)),
            None => position_of(s@) is None,
        },
{
    let chars = to_chars(s);
    let mut i: usize = 0;
    while i < chars.len() && chars[i] != ':'
        invariant
            i <= chars@.len(),
            chars@ == s@,
            forall|k: int| 0 <= k < i ==> chars@[k] != ':',
        decreases chars@.len() - i,
    {
        i += 1;
    }
    proof {
        first_of_is(s@, ':', i as int);
    }
    if i == chars.len() {
        return None;
    }
    proof {
        assert(s@.take(i as int) == chars@.subrange(0, i as int));
        assert(s@.skip(i + 1) == chars@.subrange(i + 1, chars@.len() as int));
    }
    match parse_i64(from_chars(&chars, 0, i).as_str()) {
        Some(n) => Some((n, from_chars(&chars, i + 1, chars.len()))),
        None => None,
    }
}

impl Query {
    /// The cursor of a page that ends with the memory `id` made at
    /// `created_at_ms`. Decoding gives both back.
    pub fn encode_cursor(created_at_ms: i64, id: &str) -> (r: String)
        ensures
            r@ == base64_text(encode_utf8(cursor_text(created_at_ms, id@))),
            cursor_position(r@) == Some((created_at_ms, id@)),
    {
        let mut raw = i64_text(created_at_ms);
        raw.push(':');
        raw.push_str(id);
        proof {
            assert(raw@ == cursor_text(created_at_ms, id@));
            law_position_reads_back(created_at_ms, id@);
            vstd::utf8::encode_utf8_valid_utf8(raw@);
            vstd::utf8::encode_utf8_decode_utf8(raw@);
        }
        base64_encode(raw.as_str().as_bytes())
    }

    /// The position that a cursor stands for.
    pub fn decode_cursor(cursor: &str) -> (r: Option<(i64, String)>)
        ensures
            match r {
                Some(p) => cursor_position(cursor@) == Some((p.0, p.1@)),
                None => cursor_position(cursor@) is None,
            },
    {
        match base64_decode(cursor) {
            Some(bytes) => match utf8_text(bytes) {
                Some(s) => parse_position(s.as_str()),
                None => None,
            },
            None => None,
        }
    }
}

proof fn first_of_holds(s: Seq<char>, c: char)
    ensures
        0 <= first_of(s, c) <= s.len(),
        forall|k: int| 0 <= k < first_of(s, c) ==> s[k] != c,
        first_of(s, c) < s.len() ==> s[first_of(s, c)] == c,
    decreases s.len(),
{
    if s.len() > 0 && s[0] != c {
        let rest = s.drop_first();
        first_of_holds(rest, c);
        assert forall|k: int| 0 <= k < first_of(s, c) implies s[k] != c by {
            if k > 0 {
                assert(rest[k - 1] == s[k]);
            }
        }
        if first_of(s, c) < s.len() {
            assert(rest[first_of(rest, c)] == s[first_of(s, c)]);
        }
    }
}

/// A position is read only out of a text with a number before its first colon: the
/// number is the moment, and all that stands behind the colon is the id.
pub proof fn law_positions_are_split_at_the_first_colon(s: Seq<char>)
    ensures
        position_of(s) matches Some(p) ==> exists|colon: int|
            {
                &&& 0 <= colon < s.len()
                &&& #[trigger] s[colon] == ':'
                &&& forall|k: int| 0 <= k < colon ==> s[k] != ':'
                &&& read_signed(s.take(colon)) == Some(p.0 as int)
                &&& p.1 == s.skip(colon + 1)
            },
        !s.contains(':') ==> position_of(s) is None,
{
    first_of_holds(s, ':');
    let colon = first_of(s, ':');
    if position_of(s) is Some {
        assert(s[colon] == ':');
    }
}

} // verus!
