//! Text primitives over Unicode scalar values, with sequence models.
use vstd::prelude::*;
use vstd::string::*;

verus! {

/// `str`'s equality: two string slices are equal when they hold the same characters.
pub assume_specification[ <str as PartialEq>::eq ](a: &str, b: &str) -> (r: bool)
    ensures
        r == (a@ == b@),
;

/// `String::push`: appends the character at the end.
pub assume_specification[ String::push ](s: &mut String, c: char)
    ensures
        final(s)@ == old(s)@.push(c),
;

/// Whether two texts hold the same characters.
pub fn same(a: &str, b: &str) -> (r: bool)
    ensures
        r == (a@ == b@),
{
    *a == *b
}

/// Whether an optional text is present and equal to `b`.
pub fn same_option(a: &Option<String>, b: &str) -> (r: bool)
    ensures
        r == (a.deep_view() == Some(b@)),
{
    match a {
        Some(s) => same(s.as_str(), b),
        None => false,
    }
}

/// An owned copy of an optional text.
pub fn copy_option(a: &Option<String>) -> (r: Option<String>)
    ensures
        r.deep_view() == a.deep_view(),
{
    match a {
        Some(s) => Some(s.as_str().to_owned()),
        None => None,
    }
}

/// The characters of every text of a list.
pub open spec fn texts(list: Seq<String>) -> Seq<Seq<char>> {
    list.map_values(|s: String| s@)
}

/// An owned copy of a list of texts.
pub fn copy_texts(list: &Vec<String>) -> (r: Vec<String>)
    ensures
        texts(r@) == texts(list@),
        r@.len() == list@.len(),
{
    let mut out: Vec<String> = Vec::new();
    for i in 0..list.len()
        invariant
            out@.len() == i,
            forall|k: int| 0 <= k < i ==> (#[trigger] out@[k])@ == list@[k]@,
    {
        out.push(list[i].as_str().to_owned());
    }
    assert(texts(out@) =~= texts(list@));
    out
}

/// Whether a list of texts holds `item`.
pub fn lists(list: &Vec<String>, item: &str) -> (r: bool)
    ensures
        r == texts(list@).contains(item@),
{
    for i in 0..list.len()
        invariant
            forall|k: int| 0 <= k < i ==> texts(list@)[k] != item@,
    {
        if same(list[i].as_str(), item) {
            assert(texts(list@)[i as int] == item@);
            return true;
        }
    }
    false
}

/// The characters of a text, in order.
pub fn chars_of(s: &str) -> (r: Vec<char>)
    ensures
        r@ == s@,
{
    let mut out: Vec<char> = Vec::new();
    for c in it: s.chars()
        invariant
            it.seq() == s@,
            out@ == s@.take(it.index()),
    {
        out.push(c);
        assert(out@ =~= s@.take(it.index() + 1));
    }
    assert(out@ =~= s@);
    out
}

/// The text made of `chars[from..to]`.
pub fn slice_text(chars: &Vec<char>, from: usize, to: usize) -> (r: String)
    requires
        from <= to <= chars@.len(),
    ensures
        r@ == chars@.subrange(from as int, to as int),
{
    let mut out: String = String::new();
    proof {
        assert(out@ =~= chars@.subrange(from as int, from as int));
    }
    for i in from..to
        invariant
            from <= i <= to <= chars@.len(),
            out@ == chars@.subrange(from as int, i as int),
    {
        out.push(chars[i]);
        assert(out@ =~= chars@.subrange(from as int, i + 1));
    }
    out
}

/// The text made of all of `chars`.
pub fn text_of(chars: &Vec<char>) -> (r: String)
    ensures
        r@ == chars@,
{
    let r = slice_text(chars, 0, chars.len());
    assert(r@ =~= chars@);
    r
}

/// Two texts, one after the other.
pub fn cat2(a: &str, b: &str) -> (r: String)
    ensures
        r@ == a@ + b@,
{
    let mut out: String = a.to_owned();
    out.append(b);
    out
}

/// Three texts in a row.
pub fn cat3(a: &str, b: &str, c: &str) -> (r: String)
    ensures
        r@ == a@ + b@ + c@,
{
    let mut out: String = cat2(a, b);
    out.append(c);
    out
}

/// Four texts in a row.
pub fn cat4(a: &str, b: &str, c: &str, d: &str) -> (r: String)
    ensures
        r@ == a@ + b@ + c@ + d@,
{
    let mut out: String = cat3(a, b, c);
    out.append(d);
    out
}

/// Five texts in a row.
pub fn cat5(a: &str, b: &str, c: &str, d: &str, e: &str) -> (r: String)
    ensures
        r@ == a@ + b@ + c@ + d@ + e@,
{
    let mut out: String = cat4(a, b, c, d);
    out.append(e);
    out
}

/// Six texts in a row.
pub fn cat6(a: &str, b: &str, c: &str, d: &str, e: &str, f: &str) -> (r: String)
    ensures
        r@ == a@ + b@ + c@ + d@ + e@ + f@,
{
    let mut out: String = cat5(a, b, c, d, e);
    out.append(f);
    out
}

/// The texts of a list with `separator` between neighbours.
pub open spec fn joined(list: Seq<Seq<char>>, separator: Seq<char>) -> Seq<char>
    decreases list.len(),
{
    if list.len() == 0 {
        Seq::empty()
    } else if list.len() == 1 {
        list[0]
    } else {
        joined(list.drop_last(), separator) + separator + list.last()
    }
}

/// Joins the texts of a list with `separator` between neighbours.
pub fn join(list: &Vec<String>, separator: &str) -> (r: String)
    ensures
        r@ == joined(texts(list@), separator@),
{
    let mut out: String = String::new();
    proof {
        assert(texts(list@).take(0) =~= Seq::<Seq<char>>::empty());
        assert(out@ =~= Seq::<char>::empty());
    }
    for i in 0..list.len()
        invariant
            out@ == joined(texts(list@).take(i as int), separator@),
    {
        proof {
            assert(texts(list@).take(i + 1).drop_last() =~= texts(list@).take(i as int));
            assert(texts(list@).take(i + 1).last() == list@[i as int]@);
        }
        if i == 0 {
            out = list[i].as_str().to_owned();
        } else {
            out = cat3(out.as_str(), separator, list[i].as_str());
        }
    }
    assert(texts(list@).take(list@.len() as int) =~= texts(list@));
    out
}

/// Characters with the Unicode `White_Space` property.
pub open spec fn is_space(c: char) -> bool {
    ||| '\u{9}' <= c <= '\u{d}'
    ||| c == ' ' || c == '\u{85}' || c == '\u{a0}' || c == '\u{1680}'
    ||| '\u{2000}' <= c <= '\u{200a}'
    ||| c == '\u{2028}' || c == '\u{2029}' || c == '\u{202f}' || c == '\u{205f}' || c == '\u{3000}'
}

/// A set of characters that can be stripped off the ends of a text.
#[derive(Clone, Copy, Debug, PartialEq, Eq, Structural)]
pub enum CharClass {
    /// White space.
    Space,
    /// One given character.
    Only(char),
}

impl CharClass {
    /// Whether the class holds `c`.
    pub open spec fn has(self, c: char) -> bool {
        match self {
            CharClass::Space => is_space(c),
            CharClass::Only(d) => c == d,
        }
    }

    /// Whether the class holds `c`.
    pub fn holds(self, c: char) -> (r: bool)
        ensures
            r == self.has(c),
    {
        match self {
            CharClass::Space => ('\u{9}' <= c && c <= '\u{d}') || c == ' ' || c == '\u{85}' || c
                == '\u{a0}' || c == '\u{1680}' || ('\u{2000}' <= c && c <= '\u{200a}') || c
                == '\u{2028}' || c == '\u{2029}' || c == '\u{202f}' || c == '\u{205f}' || c
                == '\u{3000}',
            CharClass::Only(d) => c == d,
        }
    }
}

/// `s` without the longest prefix made of characters of `class`.
pub open spec fn strip_front(s: Seq<char>, class: CharClass) -> Seq<char>
    decreases s.len(),
{
    if s.len() > 0 && class.has(s[0]) {
        strip_front(s.skip(1), class)
    } else {
        s
    }
}

/// `s` without the longest suffix made of characters of `class`.
pub open spec fn strip_back(s: Seq<char>, class: CharClass) -> Seq<char>
    decreases s.len(),
{
    if s.len() > 0 && class.has(s.last()) {
        strip_back(s.drop_last(), class)
    } else {
        s
    }
}

/// `s` without the white space at both ends.
pub open spec fn trimmed(s: Seq<char>) -> Seq<char> {
    strip_back(strip_front(s, CharClass::Space), CharClass::Space)
}

/// `s` stripped of `class` at the requested ends.
fn strip(s: &str, class: CharClass, front: bool) -> (r: String)
    ensures
        r@ == strip_back(if front { strip_front(s@, class) } else { s@ }, class),
{
    let chars = chars_of(s);
    let mut from: usize = 0;
    proof {
        assert(s@.skip(0) =~= s@);
    }
    if front {
        while from < chars.len() && class.holds(chars[from])
            invariant
                chars@ == s@,
                from <= chars@.len(),
                strip_front(s@, class) == strip_front(s@.skip(from as int), class),
            decreases chars@.len() - from,
        {
            assert(s@.skip(from as int).skip(1) =~= s@.skip(from + 1));
            from = from + 1;
        }
    }
    let ghost base = if front { strip_front(s@, class) } else { s@ };
    assert(base =~= s@.skip(from as int));
    let mut to: usize = chars.len();
    assert(s@.subrange(from as int, to as int) =~= base);
    while to > from && class.holds(chars[to - 1])
        invariant
            chars@ == s@,
            from <= to <= chars@.len(),
            strip_back(base, class) == strip_back(s@.subrange(from as int, to as int), class),
        decreases to,
    {
        assert(s@.subrange(from as int, to as int).drop_last() =~= s@.subrange(
            from as int,
            to - 1,
        ));
        to = to - 1;
    }
    slice_text(&chars, from, to)
}

/// The text without the white space at both ends.
pub fn trim(s: &str) -> (r: String)
    ensures
        r@ == trimmed(s@),
{
    strip(s, CharClass::Space, true)
}

/// The text without the characters `c` at its end.
pub fn trim_end_of(s: &str, c: char) -> (r: String)
    ensures
        r@ == strip_back(s@, CharClass::Only(c)),
{
    strip(s, CharClass::Only(c), false)
}

/// The text without the characters `c` at both ends.
pub fn trim_both_of(s: &str, c: char) -> (r: String)
    ensures
        r@ == strip_back(strip_front(s@, CharClass::Only(c)), CharClass::Only(c)),
{
    strip(s, CharClass::Only(c), true)
}

/// The pieces of `s` between occurrences of `c`; there is always at least one.
pub open spec fn pieces(s: Seq<char>, c: char) -> Seq<Seq<char>>
    decreases s.len(),
{
    if s.len() == 0 {
        seq![Seq::<char>::empty()]
    } else {
        let before = pieces(s.drop_last(), c);
        if s.last() == c {
            before.push(Seq::<char>::empty())
        } else {
            before.drop_last().push(before.last().push(s.last()))
        }
    }
}

/// Splitting a text and joining the pieces with the separator gives the text back.
pub proof fn split_then_join(s: Seq<char>, c: char)
    ensures
        pieces(s, c).len() > 0,
        joined(pieces(s, c), seq![c]) == s,
    decreases s.len(),
{
    if s.len() > 0 {
        let before = pieces(s.drop_last(), c);
        assert(s =~= s.drop_last().push(s.last()));
        split_then_join(s.drop_last(), c);
        if s.last() == c {
            assert(pieces(s, c).drop_last() =~= before);
            assert(joined(pieces(s, c), seq![c]) =~= s);
        } else {
            let all = pieces(s, c);
            assert(all.drop_last() =~= before.drop_last());
            if all.len() == 1 {
                assert(joined(all, seq![c]) == all[0]);
                assert(all[0] =~= s);
            } else {
                assert(joined(before, seq![c]) == joined(before.drop_last(), seq![c]) + seq![c]
                    + before.last());
                assert(all.last() == before.last().push(s.last()));
                assert(joined(all, seq![c]) == joined(all.drop_last(), seq![c]) + seq![c]
                    + all.last());
                assert(joined(all, seq![c]) =~= joined(before, seq![c]).push(s.last()));
                assert(joined(all, seq![c]) =~= s);
            }
        }
    } else {
        assert(pieces(s, c)[0] =~= s);
    }
}

/// The pieces of a text between occurrences of `c`.
pub fn split(s: &str, c: char) -> (r: Vec<String>)
    ensures
        texts(r@) == pieces(s@, c),
{
    let chars = chars_of(s);
    let mut out: Vec<String> = Vec::new();
    let mut from: usize = 0;
    proof {
        assert(s@.take(0) =~= Seq::<char>::empty());
        assert(seq![Seq::<char>::empty()] =~= texts(out@).push(s@.subrange(0, 0)));
    }
    for i in 0..chars.len()
        invariant
            chars@ == s@,
            from <= i,
            pieces(s@.take(i as int), c) == texts(out@).push(s@.subrange(from as int, i as int)),
    {
        let ghost before = pieces(s@.take(i as int), c);
        let ghost was = texts(out@);
        proof {
            assert(s@.take(i + 1).drop_last() =~= s@.take(i as int));
            assert(s@.take(i + 1).last() == s@[i as int]);
            assert(before.drop_last() =~= was);
        }
        if chars[i] == c {
            out.push(slice_text(&chars, from, i));
            from = i + 1;
            assert(texts(out@) =~= before);
            assert(s@.subrange(from as int, i + 1) =~= Seq::<char>::empty());
        } else {
            assert(s@.subrange(from as int, i as int).push(s@[i as int]) =~= s@.subrange(
                from as int,
                i + 1,
            ));
        }
    }
    assert(s@.take(s@.len() as int) =~= s@);
    let ghost was = texts(out@);
    out.push(slice_text(&chars, from, chars.len()));
    assert(texts(out@) =~= was.push(s@.subrange(from as int, s@.len() as int)));
    out
}

/// Whether `needle` stands in `hay` at position `at`.
pub open spec fn stands_at(hay: Seq<char>, needle: Seq<char>, at: int) -> bool {
    0 <= at && at + needle.len() <= hay.len() && hay.subrange(at, at + needle.len()) == needle
}

/// Whether `needle` stands anywhere in `hay`.
pub open spec fn occurs(hay: Seq<char>, needle: Seq<char>) -> bool {
    exists|at: int| #[trigger] stands_at(hay, needle, at)
}

/// The first piece of a text is what stands before the first `c`; the other pieces
/// are those of what stands behind it.
pub proof fn first_piece(a: Seq<char>, rest: Seq<char>, c: char)
    requires
        !a.contains(c),
    ensures
        pieces(a, c) == seq![a],
        pieces(a + seq![c] + rest, c) == seq![a] + pieces(rest, c),
    decreases a.len() + rest.len(),
{
    if a.len() > 0 && rest.len() == 0 {
        let init = a.drop_last();
        assert forall|k: int| 0 <= k < init.len() implies init[k] != c by {
            assert(a[k] != c);
        }
        first_piece(init, rest, c);
        assert(a[a.len() - 1] != c);
        assert(a =~= init.push(a.last()));
        assert(pieces(a, c) =~= seq![a]);
    } else if a.len() > 0 {
        first_piece(a, Seq::empty(), c);
    } else {
        assert(a =~= Seq::<char>::empty());
        assert(pieces(a, c) =~= seq![a]);
    }
    let s = a + seq![c] + rest;
    if rest.len() == 0 {
        assert(s.drop_last() =~= a);
        assert(s.last() == c);
        assert(pieces(rest, c) =~= seq![Seq::<char>::empty()]);
        assert(pieces(s, c) =~= seq![a] + pieces(rest, c));
    } else {
        let init = rest.drop_last();
        first_piece(a, init, c);
        split_then_join(init, c);
        split_then_join(rest, c);
        assert(s.drop_last() =~= a + seq![c] + init);
        assert(s.last() == rest.last());
        assert(pieces(s, c) =~= seq![a] + pieces(rest, c));
    }
}

/// A text without white space at its ends is left as it is; with white space put
/// around it, it is found again.
pub proof fn trimming_takes_white_space_off(front: Seq<char>, s: Seq<char>, back: Seq<char>)
    requires
        forall|i: int| 0 <= i < front.len() ==> is_space(front[i]),
        forall|i: int| 0 <= i < back.len() ==> is_space(back[i]),
        s.len() > 0,
        !is_space(s[0]),
        !is_space(s.last()),
    ensures
        trimmed(front + s + back) == s,
    decreases front.len() + back.len(),
{
    let all = front + s + back;
    if front.len() > 0 {
        assert(all.skip(1) =~= front.skip(1) + s + back);
        trimming_takes_white_space_off(front.skip(1), s, back);
        assert(strip_front(all, CharClass::Space) == strip_front(all.skip(1), CharClass::Space));
    } else {
        assert(all[0] == s[0]);
        assert(strip_front(all, CharClass::Space) == all);
        if back.len() > 0 {
            assert(all.last() == back.last());
            assert(all.drop_last() =~= front + s + back.drop_last());
            trimming_takes_white_space_off(front, s, back.drop_last());
            assert(all.drop_last()[0] == s[0]);
        } else {
            assert(all =~= s);
        }
    }
}

/// Whether the characters of `needle` stand in `hay` at position `at`.
fn found_at(hay: &Vec<char>, needle: &Vec<char>, at: usize) -> (r: bool)
    ensures
        r == stands_at(hay@, needle@, at as int),
{
    let total: usize = hay.len();
    if at > total || total - at < needle.len() {
        return false;
    }
    for i in 0..needle.len()
        invariant
            total == hay@.len(),
            at + needle@.len() <= hay@.len(),
            forall|k: int| 0 <= k < i ==> hay@[at + k] == needle@[k],
    {
        if hay[at + i] != needle[i] {
            assert(hay@.subrange(at as int, at + needle@.len())[i as int] != needle@[i as int]);
            return false;
        }
    }
    assert(hay@.subrange(at as int, at + needle@.len()) =~= needle@);
    true
}

/// Whether `needle` stands anywhere in `hay`.
pub fn contains(hay: &str, needle: &str) -> (r: bool)
    ensures
        r == occurs(hay@, needle@),
{
    let h = chars_of(hay);
    let n = chars_of(needle);
    if h.len() < n.len() {
        return false;
    }
    let last: usize = h.len() - n.len();
    for at in 0..last
        invariant
            h@ == hay@,
            n@ == needle@,
            last == h@.len() - n@.len(),
            forall|k: int| 0 <= k < at ==> !stands_at(hay@, needle@, k),
    {
        if found_at(&h, &n, at) {
            return true;
        }
    }
    found_at(&h, &n, last)
}

/// Whether `s` begins with `prefix`.
pub open spec fn begins(s: Seq<char>, prefix: Seq<char>) -> bool {
    prefix.len() <= s.len() && s.take(prefix.len() as int) == prefix
}

/// Whether a text begins with `prefix`.
pub fn starts_with(s: &str, prefix: &str) -> (r: bool)
    ensures
        r == begins(s@, prefix@),
{
    let r = found_at(&chars_of(s), &chars_of(prefix), 0);
    assert(s@.len() >= prefix@.len() ==> s@.subrange(0, prefix@.len() as int) =~= s@.take(
        prefix@.len() as int,
    ));
    r
}

/// Whether a text ends with the character `c`.
pub fn ends_with(s: &str, c: char) -> (r: bool)
    ensures
        r == (s@.len() > 0 && s@.last() == c),
{
    let chars = chars_of(s);
    chars.len() > 0 && chars[chars.len() - 1] == c
}

/// What follows `prefix` in a text that begins with it.
pub fn strip_prefix(s: &str, prefix: &str) -> (r: Option<String>)
    ensures
        r.deep_view() == if begins(s@, prefix@) {
            Some(s@.skip(prefix@.len() as int))
        } else {
            None
        },
{
    if starts_with(s, prefix) {
        let chars = chars_of(s);
        let n: usize = chars_of(prefix).len();
        let rest = slice_text(&chars, n, chars.len());
        assert(rest@ =~= s@.skip(n as int));
        Some(rest)
    } else {
        None
    }
}

/// Whether a text holds the character `c`.
pub fn has_char(s: &str, c: char) -> (r: bool)
    ensures
        r == s@.contains(c),
{
    let chars = chars_of(s);
    for i in 0..chars.len()
        invariant
            chars@ == s@,
            forall|k: int| 0 <= k < i ==> s@[k] != c,
    {
        if chars[i] == c {
            assert(s@[i as int] == c);
            return true;
        }
    }
    false
}

/// Every `from` replaced by `to`.
pub open spec fn replaced(s: Seq<char>, from: char, to: char) -> Seq<char> {
    s.map_values(|c: char| if c == from { to } else { c })
}

/// The text with every `from` replaced by `to`.
pub fn replace_char(s: &str, from: char, to: char) -> (r: String)
    ensures
        r@ == replaced(s@, from, to),
{
    let chars = chars_of(s);
    let mut out: String = String::new();
    assert(out@ =~= replaced(s@, from, to).take(0));
    for i in 0..chars.len()
        invariant
            chars@ == s@,
            out@ == replaced(s@, from, to).take(i as int),
    {
        out.push(if chars[i] == from { to } else { chars[i] });
        assert(out@ =~= replaced(s@, from, to).take(i + 1));
    }
    assert(out@ =~= replaced(s@, from, to));
    out
}

/// The ASCII lower case of a character.
pub open spec fn lower(c: char) -> char {
    if 'A' <= c <= 'Z' {
        ((c as u32 + 32) as u32) as char
    } else {
        c
    }
}

/// Every ASCII upper case letter turned to lower case.
pub open spec fn lowered(s: Seq<char>) -> Seq<char> {
    s.map_values(|c: char| lower(c))
}

/// The text in ASCII lower case.
pub fn to_lower(s: &str) -> (r: String)
    ensures
        r@ == lowered(s@),
{
    let chars = chars_of(s);
    let mut out: String = String::new();
    assert(out@ =~= lowered(s@).take(0));
    for i in 0..chars.len()
        invariant
            chars@ == s@,
            out@ == lowered(s@).take(i as int),
    {
        let c = chars[i];
        if 'A' <= c && c <= 'Z' {
            out.push(((c as u8) + 32u8) as char);
        } else {
            out.push(c);
        }
        assert(out@ =~= lowered(s@).take(i + 1));
    }
    assert(out@ =~= lowered(s@));
    out
}

/// Whether a text is empty.
pub fn is_blank(s: &str) -> (r: bool)
    ensures
        r == (s@.len() == 0),
{
    chars_of(s).len() == 0
}

} // verus!
