//! Text as sequences of characters: building, trimming, splitting and searching
//! strings, and reading and writing decimal numbers.
use crate::model::views;
use vstd::prelude::*;

verus! {

/// `String::push` appends one character.
pub assume_specification[ String::push ](s: &mut String, c: char)
    ensures
        final(s)@ == old(s)@.push(c),
;

/// `String::push_str` appends the characters of a string slice.
pub assume_specification[ String::push_str ](s: &mut String, t: &str)
    ensures
        final(s)@ == old(s)@ + t@,
;

/// The characters of a string, in order.
pub fn to_chars(s: &str) -> (r: Vec<char>)
    ensures
        r@ == s@,
{
    let mut out: Vec<char> = Vec::new();
    for c in it: s.chars()
        invariant
            it.seq() == s@,
            out@ == s@.take(it.index()),
    {
        proof {
            assert(s@.take(it.index() + 1) == s@.take(it.index()).push(s@[it.index()]));
        }
        out.push(c);
    }
    assert(s@.take(s@.len() as int) == s@);
    out
}

/// The string made of the characters `chars[from..to]`.
pub fn from_chars(chars: &Vec<char>, from: usize, to: usize) -> (r: String)
    requires
        from <= to <= chars@.len(),
    ensures
        r@ == chars@.subrange(from as int, to as int),
{
    let mut out = String::new();
    let mut i: usize = from;
    while i < to
        invariant
            from <= i <= to <= chars@.len(),
            out@ == chars@.subrange(from as int, i as int),
        decreases to - i,
    {
        proof {
            assert(chars@.subrange(from as int, i + 1) == chars@.subrange(
                from as int,
                i as int,
            ).push(chars@[i as int]));
        }
        out.push(chars[i]);
        i += 1;
    }
    out
}

/// Two texts one after the other.
pub fn cat(a: &str, b: &str) -> (r: String)
    ensures
        r@ == a@ + b@,
{
    let mut out = a.to_owned();
    out.push_str(b);
    out
}

/// Three texts one after another.
pub fn cat3(a: &str, b: &str, c: &str) -> (r: String)
    ensures
        r@ == a@ + b@ + c@,
{
    let mut out = a.to_owned();
    out.push_str(b);
    out.push_str(c);
    out
}

/// Whether two strings hold the same characters.
pub fn same_text(a: &str, b: &str) -> (r: bool)
    ensures
        r == (a@ == b@),
{
    a.to_owned() == b.to_owned()
}

/// The characters with the Unicode `White_Space` property.
pub open spec fn is_space(c: char) -> bool {
    ||| '\u{9}' <= c <= '\u{d}'
    ||| c == ' '
    ||| c == '\u{85}'
    ||| c == '\u{a0}'
    ||| c == '\u{1680}'
    ||| '\u{2000}' <= c <= '\u{200a}'
    ||| c == '\u{2028}'
    ||| c == '\u{2029}'
    ||| c == '\u{202f}'
    ||| c == '\u{205f}'
    ||| c == '\u{3000}'
}

/// Whether `c` is white space.
pub fn is_space_char(c: char) -> (r: bool)
    ensures
        r == is_space(c),
{
    ('\u{9}' <= c && c <= '\u{d}') || c == ' ' || c == '\u{85}' || c == '\u{a0}' || c == '\u{1680}'
        || ('\u{2000}' <= c && c <= '\u{200a}') || c == '\u{2028}' || c == '\u{2029}' || c
        == '\u{202f}' || c == '\u{205f}' || c == '\u{3000}'
}

/// A text with nothing but white space in it.
pub open spec fn blank(s: Seq<char>) -> bool {
    forall|i: int| 0 <= i < s.len() ==> is_space(#[trigger] s[i])
}

/// Whether nothing of `s` is left once it is trimmed.
pub fn is_blank(s: &str) -> (r: bool)
    ensures
        r == blank(s@),
{
    let chars = to_chars(s);
    let mut i: usize = 0;
    while i < chars.len()
        invariant
            i <= chars@.len(),
            chars@ == s@,
            forall|k: int| 0 <= k < i ==> is_space(#[trigger] chars@[k]),
        decreases chars@.len() - i,
    {
        if !is_space_char(chars[i]) {
            assert(!is_space(s@[i as int]));
            return false;
        }
        i += 1;
    }
    true
}

/// `s` without the white space at its start.
pub open spec fn trim_left(s: Seq<char>) -> Seq<char>
    decreases s.len(),
{
    if s.len() > 0 && is_space(s[0]) {
        trim_left(s.drop_first())
    } else {
        s
    }
}

/// `s` without the white space at its end.
pub open spec fn trim_right(s: Seq<char>) -> Seq<char>
    decreases s.len(),
{
    if s.len() > 0 && is_space(s.last()) {
        trim_right(s.drop_last())
    } else {
        s
    }
}

/// `s` without the white space at either end.
pub open spec fn trimmed(s: Seq<char>) -> Seq<char> {
    trim_right(trim_left(s))
}

/// `s` without the white space at either end.
pub fn trim(s: &str) -> (r: String)
    ensures
        r@ == trimmed(s@),
{
    let chars = to_chars(s);
    let mut from: usize = 0;
    assert(chars@.skip(0) == chars@);
    while from < chars.len() && is_space_char(chars[from])
        invariant
            from <= chars@.len(),
            chars@ == s@,
            trim_left(s@) == trim_left(chars@.skip(from as int)),
        decreases chars@.len() - from,
    {
        proof {
            assert(chars@.skip(from as int).drop_first() == chars@.skip(from + 1));
        }
        from += 1;
    }
    assert(trim_left(s@) == chars@.skip(from as int));
    let mut to: usize = chars.len();
    assert(chars@.subrange(from as int, to as int) == chars@.skip(from as int));
    while to > from && is_space_char(chars[to - 1])
        invariant
            from <= to <= chars@.len(),
            trim_right(trim_left(s@)) == trim_right(chars@.subrange(from as int, to as int)),
        decreases to,
    {
        proof {
            assert(chars@.subrange(from as int, to as int).drop_last() == chars@.subrange(
                from as int,
                to - 1,
            ));
        }
        to -= 1;
    }
    from_chars(&chars, from, to)
}

/// The pieces of `s` between the separators `sep`: one more than there are
/// separators, empty pieces counted.
pub open spec fn pieces(s: Seq<char>, sep: char) -> Seq<Seq<char>>
    decreases s.len(),
{
    if s.len() == 0 {
        seq![Seq::<char>::empty()]
    } else {
        let before = pieces(s.drop_last(), sep);
        if s.last() == sep {
            before.push(Seq::<char>::empty())
        } else {
            before.update(before.len() - 1, before.last().push(s.last()))
        }
    }
}

/// Splits `s` at every `sep`.
pub fn split(s: &str, sep: char) -> (r: Vec<String>)
    ensures
        views(r@) == pieces(s@, sep),
{
    let chars = to_chars(s);
    let mut done: Vec<String> = Vec::new();
    let mut current = String::new();
    let mut i: usize = 0;
    assert(chars@.take(0) == Seq::<char>::empty());
    assert(views(done@).push(current@) == pieces(chars@.take(0), sep));
    while i < chars.len()
        invariant
            i <= chars@.len(),
            chars@ == s@,
            views(done@).push(current@) == pieces(chars@.take(i as int), sep),
        decreases chars@.len() - i,
    {
        let c = chars[i];
        let ghost before = pieces(chars@.take(i as int), sep);
        let ghost old_done = views(done@);
        proof {
            assert(chars@.take(i + 1).drop_last() == chars@.take(i as int));
            assert(chars@.take(i + 1).last() == c);
        }
        if c == sep {
            done.push(current);
            current = String::new();
            proof {
                assert(views(done@) == before);
                assert(views(done@).push(current@) == pieces(chars@.take(i + 1), sep));
            }
        } else {
            current.push(c);
            proof {
                assert(before.update(before.len() - 1, before.last().push(c)) == old_done.push(
                    current@,
                ));
            }
        }
        i += 1;
    }
    done.push(current);
    assert(chars@.take(chars@.len() as int) == s@);
    assert(views(done@) == pieces(s@, sep));
    done
}

/// `parts` one after another with `sep` between neighbours.
pub open spec fn joined(parts: Seq<Seq<char>>, sep: Seq<char>) -> Seq<char>
    decreases parts.len(),
{
    if parts.len() == 0 {
        Seq::empty()
    } else if parts.len() == 1 {
        parts[0]
    } else {
        joined(parts.drop_last(), sep) + sep + parts.last()
    }
}

/// Joins `parts` with `sep` between neighbours.
pub fn join(parts: &Vec<String>, sep: &str) -> (r: String)
    ensures
        r@ == joined(views(parts@), sep@),
{
    let mut out = String::new();
    let mut i: usize = 0;
    while i < parts.len()
        invariant
            i <= parts@.len(),
            out@ == joined(views(parts@).take(i as int), sep@),
        decreases parts@.len() - i,
    {
        proof {
            let t = views(parts@).take(i + 1);
            assert(t.drop_last() == views(parts@).take(i as int));
            assert(t.last() == parts@[i as int]@);
            if i == 0 {
                assert(out@ + parts@[0]@ == parts@[0]@);
            }
        }
        if i > 0 {
            out.push_str(sep);
        }
        out.push_str(parts[i].as_str());
        i += 1;
    }
    assert(views(parts@).take(parts@.len() as int) == views(parts@));
    out
}

/// `needle` occurs in `hay` at character `at`.
pub open spec fn occurs_at(hay: Seq<char>, needle: Seq<char>, at: int) -> bool {
    0 <= at && at + needle.len() <= hay.len() && hay.subrange(at, at + needle.len()) == needle
}

/// `needle` occurs somewhere in `hay`.
pub open spec fn occurs(hay: Seq<char>, needle: Seq<char>) -> bool {
    exists|at: int| occurs_at(hay, needle, at)
}

fn matches_at(hay: &Vec<char>, needle: &Vec<char>, at: usize) -> (r: bool)
    requires
        at + needle@.len() <= hay@.len(),
    ensures
        r == occurs_at(hay@, needle@, at as int),
{
    let size: usize = hay.len();
    let mut k: usize = 0;
    while k < needle.len()
        invariant
            k <= needle@.len(),
            size == hay@.len(),
            at + needle@.len() <= hay@.len(),
            forall|j: int| 0 <= j < k ==> hay@[at + j] == #[trigger] needle@[j],
        decreases needle@.len() - k,
    {
        if hay[at + k] != needle[k] {
            assert(hay@.subrange(at as int, at + needle@.len())[k as int] != needle@[k as int]);
            return false;
        }
        k += 1;
    }
    assert(hay@.subrange(at as int, at + needle@.len()) == needle@);
    true
}

/// The first place where `needle` occurs in `hay`, counted in characters.
pub fn find(hay: &str, needle: &str) -> (r: Option<usize>)
    ensures
        match r {
            Some(at) => occurs_at(hay@, needle@, at as int) && forall|k: int|
                0 <= k < at ==> !occurs_at(hay@, needle@, k),
            None => !occurs(hay@, needle@),
        },
{
    let h = to_chars(hay);
    let n = to_chars(needle);
    if n.len() > h.len() {
        return None;
    }
    let last: usize = h.len() - n.len();
    let mut at: usize = 0;
    loop
        invariant
            h@ == hay@,
            n@ == needle@,
            at <= last,
            last + n@.len() == h@.len(),
            forall|k: int| 0 <= k < at ==> !occurs_at(hay@, needle@, k),
        decreases last - at,
    {
        if matches_at(&h, &n, at) {
            return Some(at);
        }
        if at == last {
            assert forall|k: int| !occurs_at(hay@, needle@, k) by {
                if 0 <= k && k + needle@.len() <= hay@.len() {
                    assert(k <= last);
                }
            }
            return None;
        }
        at += 1;
    }
}

/// Whether `needle` occurs in `hay`.
pub fn contains(hay: &str, needle: &str) -> (r: bool)
    ensures
        r == occurs(hay@, needle@),
{
    find(hay, needle).is_some()
}

/// The first `n` characters of `s`, or all of it where it is shorter.
pub open spec fn first_chars(s: Seq<char>, n: nat) -> Seq<char> {
    if s.len() <= n {
        s
    } else {
        s.take(n as int)
    }
}

/// The first `n` characters of `s`.
pub fn take_chars(s: &str, n: usize) -> (r: String)
    ensures
        r@ == first_chars(s@, n as nat),
{
    let chars = to_chars(s);
    let to: usize = if chars.len() <= n {
        chars.len()
    } else {
        n
    };
    assert(chars@.subrange(0, to as int) == first_chars(s@, n as nat));
    from_chars(&chars, 0, to)
}

/// The lower-case form of a text, by the Unicode rules.
pub uninterp spec fn lowercase(s: Seq<char>) -> Seq<char>;

/// The lower-case form of an ASCII character.
pub open spec fn ascii_lower(c: char) -> char {
    if 'A' <= c <= 'Z' {
        (c as u32 + 32) as char
    } else {
        c
    }
}

/// `str::to_lowercase`: the text's lower-case form is a function of the text.
/// Of a text made of ASCII characters alone it changes the letters `A` to `Z`
/// to `a` to `z` and nothing else.
#[verifier::external_body]
pub(crate) fn to_lowercase(s: &str) -> (r: String)
    ensures
        r@ == lowercase(s@),
        vstd::utf8::is_ascii_chars(s@) ==> r@ == s@.map_values(|c: char| ascii_lower(c)),
{
    s.to_lowercase()
}

proof fn left_end(s: Seq<char>) -> (from: int)
    ensures
        0 <= from <= s.len(),
        trim_left(s) == s.subrange(from, s.len() as int),
        forall|i: int| 0 <= i < from ==> is_space(#[trigger] s[i]),
        from < s.len() ==> !is_space(s[from]),
    decreases s.len(),
{
    if s.len() > 0 && is_space(s[0]) {
        let rest = s.drop_first();
        let from = left_end(rest);
        assert(rest.subrange(from, rest.len() as int) =~= s.subrange(from + 1, s.len() as int));
        assert forall|i: int| 0 <= i < from + 1 implies is_space(#[trigger] s[i]) by {
            if i > 0 {
                assert(is_space(rest[i - 1]));
            }
        }
        if from < rest.len() {
            assert(rest[from] == s[from + 1]);
        }
        from + 1
    } else {
        assert(s.subrange(0, s.len() as int) =~= s);
        0
    }
}

proof fn right_end(s: Seq<char>) -> (to: int)
    ensures
        0 <= to <= s.len(),
        trim_right(s) == s.subrange(0, to),
        forall|i: int| to <= i < s.len() ==> is_space(#[trigger] s[i]),
        to > 0 ==> !is_space(s[to - 1]),
    decreases s.len(),
{
    if s.len() > 0 && is_space(s.last()) {
        let rest = s.drop_last();
        let to = right_end(rest);
        assert(rest.subrange(0, to) =~= s.subrange(0, to));
        assert forall|i: int| to <= i < s.len() implies is_space(#[trigger] s[i]) by {
            if i < rest.len() {
                assert(is_space(rest[i]));
            }
        }
        if to > 0 {
            assert(rest[to - 1] == s[to - 1]);
        }
        to
    } else {
        assert(s.subrange(0, s.len() as int) =~= s);
        s.len() as int
    }
}

/// Trimming takes the white space from both ends and nothing else: what is left
/// stands in the text between two places, before and behind which there is only
/// white space, and neither begins nor ends with any.
pub proof fn law_trimming_takes_the_ends(s: Seq<char>) -> (ends: (int, int))
    ensures
        0 <= ends.0 <= ends.1 <= s.len(),
        trimmed(s) == s.subrange(ends.0, ends.1),
        forall|i: int| 0 <= i < ends.0 ==> is_space(#[trigger] s[i]),
        forall|i: int| ends.1 <= i < s.len() ==> is_space(#[trigger] s[i]),
        trimmed(s).len() > 0 ==> !is_space(trimmed(s)[0]) && !is_space(trimmed(s).last()),
        trimmed(s).len() == 0 <==> blank(s),
{
    let from = left_end(s);
    let rest = s.subrange(from, s.len() as int);
    let to = right_end(rest);
    assert(rest.subrange(0, to) =~= s.subrange(from, from + to));
    assert forall|i: int| from + to <= i < s.len() implies is_space(#[trigger] s[i]) by {
        assert(is_space(rest[i - from]));
    }
    if to > 0 {
        assert(rest[0] == s[from]);
        assert(rest[to - 1] == s[from + to - 1]);
        assert(!is_space(s[from + to - 1]));
    } else if from < s.len() {
        assert(is_space(rest[0]));
    }
    (from, from + to)
}

proof fn joined_last_grows(parts: Seq<Seq<char>>, sep: Seq<char>, c: char)
    requires
        parts.len() > 0,
    ensures
        joined(parts.update(parts.len() - 1, parts.last().push(c)), sep) == joined(
            parts,
            sep,
        ).push(c),
        joined(parts.push(Seq::empty()), sep) == joined(parts, sep) + sep,
{
    let longer = parts.update(parts.len() - 1, parts.last().push(c));
    assert(longer.drop_last() =~= parts.drop_last());
    assert(longer.last() == parts.last().push(c));
    if parts.len() > 1 {
        assert(joined(longer, sep) =~= joined(parts, sep).push(c));
    }
    let more = parts.push(Seq::empty());
    assert(more.drop_last() =~= parts);
    assert(joined(more, sep) =~= joined(parts, sep) + sep);
}

/// The pieces of a text, put together again with the separator between them, are
/// the text; and no piece holds the separator.
pub proof fn law_pieces_make_up_the_text(s: Seq<char>, sep: char)
    ensures
        pieces(s, sep).len() > 0,
        joined(pieces(s, sep), seq![sep]) == s,
        forall|i: int|
            0 <= i < pieces(s, sep).len() ==> !(#[trigger] pieces(s, sep)[i]).contains(sep),
    decreases s.len(),
{
    if s.len() == 0 {
        assert(joined(pieces(s, sep), seq![sep]) =~= s);
    } else {
        let front = s.drop_last();
        law_pieces_make_up_the_text(front, sep);
        let before = pieces(front, sep);
        joined_last_grows(before, seq![sep], s.last());
        assert(s =~= front.push(s.last()));
        if s.last() == sep {
            assert(front + seq![sep] =~= s);
        } else {
            let all = pieces(s, sep);
            assert forall|i: int| 0 <= i < all.len() implies !(#[trigger] all[i]).contains(sep) by {
                if i < before.len() - 1 {
                    assert(all[i] == before[i]);
                } else {
                    let last = before.last();
                    assert(!before[before.len() - 1].contains(sep));
                    if all[i].contains(sep) {
                        let k = all[i].index_of(sep);
                        assert(last.push(s.last())[k] == sep);
                        assert(last[k] == sep);
                    }
                }
            }
        }
    }
}

/// The first characters of a text: as many as it has, up to so many, each at its
/// place.
pub proof fn law_first_chars_are_the_first(s: Seq<char>, n: nat)
    ensures
        first_chars(s, n).len() == if s.len() <= n {
            s.len()
        } else {
            n
        },
        forall|i: int| 0 <= i < first_chars(s, n).len() ==> #[trigger] first_chars(s, n)[i] == s[i],
{
}

/// Parts that were joined stand in the whole one after another, with the separator
/// between neighbours and nothing else.
pub proof fn law_joined_parts_stand_in_order(parts: Seq<Seq<char>>, sep: Seq<char>) -> (starts: Seq<
    int,
>)
    ensures
        starts.len() == parts.len(),
        parts.len() > 0 ==> starts[0] == 0 && joined(parts, sep).len() == starts.last()
            + parts.last().len(),
        parts.len() == 0 ==> joined(parts, sep).len() == 0,
        forall|i: int|
            0 <= i < parts.len() ==> 0 <= #[trigger] starts[i] && starts[i] + parts[i].len()
                <= joined(parts, sep).len() && joined(parts, sep).subrange(
                starts[i],
                starts[i] + parts[i].len(),
            ) == parts[i],
        forall|i: int|
            0 < i < parts.len() ==> #[trigger] starts[i] == starts[i - 1] + parts[i - 1].len()
                + sep.len(),
    decreases parts.len(),
{
    if parts.len() == 0 {
        Seq::empty()
    } else if parts.len() == 1 {
        assert(parts[0].subrange(0, parts[0].len() as int) =~= parts[0]);
        seq![0]
    } else {
        let front = parts.drop_last();
        let before = law_joined_parts_stand_in_order(front, sep);
        let so_far = joined(front, sep);
        let all = joined(parts, sep);
        let start = so_far.len() as int + sep.len();
        let starts = before.push(start);
        assert(all == so_far + sep + parts.last());
        assert(all.subrange(start, start + parts.last().len()) =~= parts.last());
        assert forall|i: int| 0 <= i < parts.len() implies 0 <= #[trigger] starts[i] && starts[i]
            + parts[i].len() <= all.len() && all.subrange(starts[i], starts[i] + parts[i].len())
            == parts[i] by {
            if i < front.len() {
                assert(front[i] == parts[i]);
                assert(starts[i] == before[i]);
                assert(all.subrange(starts[i], starts[i] + parts[i].len()) =~= so_far.subrange(
                    starts[i],
                    starts[i] + parts[i].len(),
                ));
            }
        }
        assert forall|i: int| 0 < i < parts.len() implies #[trigger] starts[i] == starts[i - 1]
            + parts[i - 1].len() + sep.len() by {
            assert(front[i - 1] == parts[i - 1]);
            assert(starts[i - 1] == before[i - 1]);
            if i < front.len() {
                assert(starts[i] == before[i]);
            } else {
                assert(front.last() == parts[i - 1]);
            }
        }
        starts
    }
}

/// Behind the same beginning, different texts make different texts.
pub proof fn same_beginning(front: Seq<char>, a: Seq<char>, b: Seq<char>)
    ensures
        front + a == front + b <==> a == b,
{
    assert((front + a).skip(front.len() as int) =~= a);
    assert((front + b).skip(front.len() as int) =~= b);
}

/// White space is never a visible ASCII character, and every ASCII character that
/// moves the place where the next is written is white space.
pub proof fn law_space_is_not_visible(c: char)
    ensures
        '!' <= c <= '~' ==> !is_space(c),
        c == ' ' || c == '\t' || c == '\n' || c == '\r' ==> is_space(c),
        blank(Seq::empty()),
        '!' <= c <= '~' ==> !blank(seq![c]),
        blank(seq![' ']),
{
    if '!' <= c <= '~' {
        assert(!is_space(seq![c][0]));
    }
}

} // verus!
