//! Text as sequences of characters: the splitting, trimming, number and
//! rendering rules that the other modules state their contracts over.
use vstd::prelude::*;
use vstd::string::{StrSliceExecFns, StringExecFns};

verus! {

// ---------------------------------------------------------------------------
// Building strings
// ---------------------------------------------------------------------------

/// Calls `String::push`, which appends one character to the end of the string.
#[verifier::external_body]
pub(crate) fn push_char(text: &mut String, c: char)
    ensures
        final(text)@ == old(text)@.push(c),
{
    text.push(c);
}

/// Calls `==` of `str`: two string slices are equal when they hold the same characters.
#[verifier::external_body]
pub(crate) fn same_text(a: &str, b: &str) -> (r: bool)
    ensures
        r == (a@ == b@),
{
    a == b
}

/// Calls `std::str::from_utf8`: bytes are text exactly where they are well-formed UTF-8,
/// and the text is then their decoding.
#[verifier::external_body]
pub(crate) fn text_from_utf8(bytes: &[u8]) -> (r: Option<String>)
    ensures
        r is Some <==> vstd::utf8::valid_utf8(bytes@),
        r is Some ==> r->Some_0@ == vstd::utf8::decode_utf8(bytes@),
{
    match std::str::from_utf8(bytes) {
        Ok(text) => Some(text.to_owned()),
        Err(_) => None,
    }
}

/// How a text is shown: as `Debug` writes it, in quotes.
pub uninterp spec fn shown_text_of(text: Seq<char>) -> Seq<char>;

/// Writes a text with std's `Debug` for `str`. How it is written depends on the text alone.
#[verifier::external_body]
pub(crate) fn shown_text(text: &str) -> (r: String)
    ensures
        r@ == shown_text_of(text@),
{
    format!("{:?}", text)
}

/// The text of some bytes, where they are well-formed UTF-8.
pub open spec fn utf8_text(bytes: Seq<u8>) -> Option<Seq<char>> {
    if vstd::utf8::valid_utf8(bytes) {
        Some(vstd::utf8::decode_utf8(bytes))
    } else {
        None
    }
}

/// The UTF-8 bytes of some text.
pub open spec fn utf8_bytes(text: Seq<char>) -> Seq<u8> {
    vstd::utf8::encode_utf8(text)
}

/// Text survives being written as UTF-8 and read back.
pub proof fn lemma_utf8_round_trip(text: Seq<char>)
    ensures
        utf8_text(utf8_bytes(text)) == Some(text),
{
    vstd::utf8::encode_utf8_valid_utf8(text);
    vstd::utf8::encode_utf8_decode_utf8(text);
}

/// What each string of a list says.
pub open spec fn texts(list: Seq<String>) -> Seq<Seq<char>> {
    Seq::new(list.len(), |i: int| list[i]@)
}

pub proof fn lemma_texts_push(list: Seq<String>, item: String)
    ensures
        texts(list.push(item)) == texts(list).push(item@),
{
    assert(texts(list.push(item)) =~= texts(list).push(item@));
}

/// The text of an optional string.
pub open spec fn opt_text(value: Option<String>) -> Option<Seq<char>> {
    match value {
        Some(text) => Some(text@),
        None => None,
    }
}

/// Copies an optional string.
pub fn clone_opt(value: &Option<String>) -> (r: Option<String>)
    ensures
        opt_text(r) == opt_text(*value),
{
    match value {
        Some(text) => Some(text.clone()),
        None => None,
    }
}

/// Whether two optional strings say the same.
pub fn same_opt(a: &Option<String>, b: &Option<String>) -> (r: bool)
    ensures
        r == (opt_text(*a) == opt_text(*b)),
{
    match (a, b) {
        (Some(x), Some(y)) => same_text(x.as_str(), y.as_str()),
        (None, None) => true,
        _ => false,
    }
}

/// The characters of a string.
pub fn chars_of(text: &str) -> (r: Vec<char>)
    ensures
        r@ == text@,
{
    let mut out: Vec<char> = Vec::new();
    let n: usize = text.unicode_len();
    let mut rest = text.chars();
    let mut i: usize = 0;
    while i < n
        invariant
            i <= n,
            n == text@.len(),
            out@ == text@.take(i as int),
            vstd::std_specs::iter::IteratorSpec::remaining(&rest) == text@.skip(i as int),
        decreases n - i,
    {
        let next = rest.next();
        match next {
            Some(c) => {
                out.push(c);
            },
            None => {},
        }
        i += 1;
        assert(out@ =~= text@.take(i as int));
        assert(vstd::std_specs::iter::IteratorSpec::remaining(&rest) =~= text@.skip(i as int));
    }
    assert(out@ =~= text@);
    out
}

/// The string of some characters.
pub fn string_of(chars: &[char]) -> (r: String)
    ensures
        r@ == chars@,
{
    let mut out = String::new();
    let mut i: usize = 0;
    while i < chars.len()
        invariant
            i <= chars@.len(),
            out@ == chars@.take(i as int),
        decreases chars@.len() - i,
    {
        push_char(&mut out, chars[i]);
        i += 1;
        assert(out@ =~= chars@.take(i as int));
    }
    assert(out@ =~= chars@);
    out
}

/// The string of the characters from `start` up to `end`.
pub fn string_of_range(chars: &[char], start: usize, end: usize) -> (r: String)
    requires
        start <= end <= chars@.len(),
    ensures
        r@ == chars@.subrange(start as int, end as int),
{
    string_of(vstd::slice::slice_subrange(chars, start, end))
}

/// Two texts one after the other.
pub fn join2(a: &str, b: &str) -> (r: String)
    ensures
        r@ == a@ + b@,
{
    let mut out = a.to_owned();
    out.append(b);
    out
}

/// Three texts one after the other.
pub fn join3(a: &str, b: &str, c: &str) -> (r: String)
    ensures
        r@ == a@ + b@ + c@,
{
    let mut out = join2(a, b);
    out.append(c);
    out
}

/// Four texts one after the other.
pub fn join4(a: &str, b: &str, c: &str, d: &str) -> (r: String)
    ensures
        r@ == a@ + b@ + c@ + d@,
{
    let mut out = join3(a, b, c);
    out.append(d);
    out
}

/// Five texts one after the other.
pub fn join5(a: &str, b: &str, c: &str, d: &str, e: &str) -> (r: String)
    ensures
        r@ == a@ + b@ + c@ + d@ + e@,
{
    let mut out = join4(a, b, c, d);
    out.append(e);
    out
}

/// The texts of a list, with `separator` between neighbours.
pub open spec fn joined(list: Seq<Seq<char>>, separator: Seq<char>) -> Seq<char>
    decreases list.len(),
{
    if list.len() == 0 {
        Seq::empty()
    } else if list.len() == 1 {
        list[0]
    } else {
        joined(list.drop_last(), separator) + separator + list.last()
    }
}

/// Joins the strings of a list, with `separator` between neighbours.
pub fn join_all(list: &Vec<String>, separator: &str) -> (r: String)
    ensures
        r@ == joined(texts(list@), separator@),
{
    let mut out = String::new();
    let mut i: usize = 0;
    while i < list.len()
        invariant
            i <= list@.len(),
            out@ == joined(texts(list@).take(i as int), separator@),
        decreases list@.len() - i,
    {
        if i > 0 {
            out.append(separator);
        }
        out.append(list[i].as_str());
        i += 1;
        proof {
            let now = texts(list@).take(i as int);
            assert(now.drop_last() =~= texts(list@).take(i as int - 1));
            assert(now.last() == list@[i as int - 1]@);
            if i == 1 {
                assert(out@ =~= list@[0]@);
            }
        }
    }
    assert(texts(list@).take(i as int) =~= texts(list@));
    out
}

// ---------------------------------------------------------------------------
// Finding and splitting
// ---------------------------------------------------------------------------

/// Where `c` first stands in `s`; the length of `s` where it stands nowhere.
pub open spec fn index_of(s: Seq<char>, c: char) -> int
    decreases s.len(),
{
    if s.len() == 0 {
        0
    } else if s[0] == c {
        0
    } else {
        1 + index_of(s.drop_first(), c)
    }
}

/// `index_of` is the least position that holds the character.
pub proof fn lemma_index_of(s: Seq<char>, c: char)
    ensures
        0 <= index_of(s, c) <= s.len(),
        forall|j: int| 0 <= j < index_of(s, c) ==> s[j] != c,
        index_of(s, c) < s.len() ==> s[index_of(s, c)] == c,
    decreases s.len(),
{
    if s.len() > 0 && s[0] != c {
        let t = s.drop_first();
        lemma_index_of(t, c);
        assert forall|j: int| 0 <= j < index_of(s, c) implies s[j] != c by {
            if j > 0 {
                assert(t[j - 1] == s[j]);
            }
        }
    }
}

/// A position that no occurrence precedes, and that ends the text or holds the character,
/// is `index_of`.
pub proof fn lemma_index_of_unique(s: Seq<char>, c: char, i: int)
    requires
        0 <= i <= s.len(),
        forall|j: int| 0 <= j < i ==> s[j] != c,
        i < s.len() ==> s[i] == c,
    ensures
        index_of(s, c) == i,
{
    lemma_index_of(s, c);
    let k = index_of(s, c);
    if k < i {
        assert(s[k] != c);
    }
    if i < k {
        assert(s[i] != c);
    }
}

/// The pieces of `s` between the occurrences of `c`: one more than there are occurrences.
pub open spec fn split_on(s: Seq<char>, c: char) -> Seq<Seq<char>>
    decreases s.len(),
{
    let i = index_of(s, c);
    if 0 <= i < s.len() {
        seq![s.take(i)] + split_on(s.skip(i + 1), c)
    } else {
        seq![s]
    }
}

/// Splitting yields at least one piece.
pub proof fn lemma_split_nonempty(s: Seq<char>, c: char)
    ensures
        split_on(s, c).len() >= 1,
    decreases s.len(),
{
    let i = index_of(s, c);
    if 0 <= i < s.len() {
        lemma_split_nonempty(s.skip(i + 1), c);
    }
}

/// Where `c` first stands at or after `from`; the length where it stands nowhere there.
pub fn find_char(chars: &[char], c: char, from: usize) -> (r: usize)
    requires
        from <= chars@.len(),
    ensures
        r == from + index_of(chars@.skip(from as int), c),
        from <= r <= chars@.len(),
        r < chars@.len() ==> chars@[r as int] == c,
        forall|j: int| from <= j < r ==> chars@[j] != c,
{
    let ghost rest = chars@.skip(from as int);
    let mut i: usize = from;
    while i < chars.len() && chars[i] != c
        invariant
            from <= i <= chars@.len(),
            rest == chars@.skip(from as int),
            forall|j: int| from <= j < i ==> chars@[j] != c,
        decreases chars@.len() - i,
    {
        i += 1;
    }
    proof {
        assert forall|j: int| 0 <= j < i - from implies rest[j] != c by {
            assert(rest[j] == chars@[from + j]);
        }
        lemma_index_of_unique(rest, c, i - from);
    }
    i
}

/// The pieces of `text` between the occurrences of `separator`, as `str::split` gives them.
pub fn split(text: &str, separator: char) -> (r: Vec<String>)
    ensures
        texts(r@) == split_on(text@, separator),
        r@.len() >= 1,
{
    let chars = chars_of(text);
    let mut out: Vec<String> = Vec::new();
    let mut start: usize = 0;
    let mut done = false;
    assert(text@.skip(0) =~= text@);
    assert(texts(out@) + split_on(text@, separator) =~= split_on(text@, separator));
    while !done
        invariant
            chars@ == text@,
            start <= chars@.len(),
            !done ==> texts(out@) + split_on(text@.skip(start as int), separator) == split_on(
                text@,
                separator,
            ),
            done ==> texts(out@) == split_on(text@, separator),
        decreases (if done { 0int } else { 1 + chars@.len() - start }),
    {
        let end = find_char(chars.as_slice(), separator, start);
        let piece = string_of_range(chars.as_slice(), start, end);
        let ghost rest = text@.skip(start as int);
        let ghost before = out@;
        proof {
            lemma_index_of(rest, separator);
            lemma_texts_push(out@, piece);
            assert(piece@ =~= rest.take(end - start));
        }
        out.push(piece);
        if end < chars.len() {
            proof {
                assert(rest.skip(end - start + 1) =~= text@.skip(end + 1));
                assert(split_on(rest, separator) == seq![rest.take(end - start)] + split_on(
                    text@.skip(end + 1),
                    separator,
                ));
                assert(texts(out@) + split_on(text@.skip(end + 1), separator) =~= texts(before)
                    + split_on(rest, separator));
            }
            start = end + 1;
        } else {
            proof {
                assert(rest.take(end - start) =~= rest);
                assert(texts(out@) =~= texts(before) + split_on(rest, separator));
            }
            done = true;
        }
    }
    proof {
        lemma_split_nonempty(text@, separator);
        assert(texts(out@).len() == out@.len());
    }
    out
}

/// What stands before and after the first `c`, where there is one.
pub open spec fn split_once_on(s: Seq<char>, c: char) -> Option<(Seq<char>, Seq<char>)> {
    let i = index_of(s, c);
    if 0 <= i < s.len() {
        Some((s.take(i), s.skip(i + 1)))
    } else {
        None
    }
}

/// The text of an optional pair of strings.
pub open spec fn opt_pair(value: Option<(String, String)>) -> Option<(Seq<char>, Seq<char>)> {
    match value {
        Some((a, b)) => Some((a@, b@)),
        None => None,
    }
}

/// Splits at the first `separator`, as `str::split_once` does.
pub fn split_once(text: &str, separator: char) -> (r: Option<(String, String)>)
    ensures
        opt_pair(r) == split_once_on(text@, separator),
{
    let chars = chars_of(text);
    let at = find_char(chars.as_slice(), separator, 0);
    assert(chars@.skip(0) =~= text@);
    if at < chars.len() {
        let head = string_of_range(chars.as_slice(), 0, at);
        let tail = string_of_range(chars.as_slice(), at + 1, chars.len());
        assert(head@ =~= text@.take(at as int));
        assert(tail@ =~= text@.skip(at + 1));
        Some((head, tail))
    } else {
        None
    }
}

/// Whether `s` begins with `prefix`.
pub open spec fn has_prefix<T>(s: Seq<T>, prefix: Seq<T>) -> bool {
    prefix.len() <= s.len() && s.take(prefix.len() as int) == prefix
}

/// Whether the text begins with `prefix`.
pub fn starts_with(text: &str, prefix: &str) -> (r: bool)
    ensures
        r == has_prefix(text@, prefix@),
{
    strip_prefix(text, prefix).is_some()
}

/// What follows `prefix`, where the text begins with it.
pub fn strip_prefix(text: &str, prefix: &str) -> (r: Option<String>)
    ensures
        r is Some <==> has_prefix(text@, prefix@),
        r is Some ==> r->Some_0@ == text@.skip(prefix@.len() as int),
{
    let n: usize = prefix.unicode_len();
    let m: usize = text.unicode_len();
    if n > m {
        return None;
    }
    let head = text.substring_char(0, n);
    assert(head@ =~= text@.take(n as int));
    if same_text(head, prefix) {
        let tail = text.substring_char(n, m);
        assert(tail@ =~= text@.skip(n as int));
        Some(tail.to_owned())
    } else {
        None
    }
}

/// A capital ASCII letter's small form; any other character as it is.
pub open spec fn ascii_lower(c: char) -> char {
    if 'A' <= c <= 'Z' {
        (c as u32 + 32) as char
    } else {
        c
    }
}

/// Whether two texts are the same but for the case of ASCII letters.
pub open spec fn same_ignoring_case(a: Seq<char>, b: Seq<char>) -> bool {
    a.len() == b.len() && forall|i: int|
        0 <= i < a.len() ==> ascii_lower(#[trigger] a[i]) == ascii_lower(b[i])
}

fn lower_char(c: char) -> (r: char)
    ensures
        r == ascii_lower(c),
{
    if 'A' <= c && c <= 'Z' {
        (c as u8 + 32) as char
    } else {
        c
    }
}

/// Whether two texts are the same but for the case of ASCII letters, as
/// `str::eq_ignore_ascii_case` compares them.
pub fn eq_ignore_ascii_case(a: &str, b: &str) -> (r: bool)
    ensures
        r == same_ignoring_case(a@, b@),
{
    let x = chars_of(a);
    let y = chars_of(b);
    if x.len() != y.len() {
        return false;
    }
    let mut i: usize = 0;
    while i < x.len()
        invariant
            i <= x@.len(),
            x@ == a@,
            y@ == b@,
            x@.len() == y@.len(),
            forall|j: int| 0 <= j < i ==> ascii_lower(#[trigger] x@[j]) == ascii_lower(y@[j]),
        decreases x@.len() - i,
    {
        if lower_char(x[i]) != lower_char(y[i]) {
            return false;
        }
        i += 1;
    }
    true
}

// ---------------------------------------------------------------------------
// Trimming
// ---------------------------------------------------------------------------

/// The characters with the Unicode property `White_Space`.
pub open spec fn is_white_space(c: char) -> bool {
    ||| '\u{9}' <= c <= '\u{d}'
    ||| c == ' '
    ||| c == '\u{85}'
    ||| c == '\u{a0}'
    ||| c == '\u{1680}'
    ||| '\u{2000}' <= c <= '\u{200a}'
    ||| c == '\u{2028}'
    ||| c == '\u{2029}'
    ||| c == '\u{202f}'
    ||| c == '\u{205f}'
    ||| c == '\u{3000}'
}

/// Whether `c` is white space.
pub fn white_space(c: char) -> (r: bool)
    ensures
        r == is_white_space(c),
{
    ('\u{9}' <= c && c <= '\u{d}') || c == ' ' || c == '\u{85}' || c == '\u{a0}' || c == '\u{1680}'
        || ('\u{2000}' <= c && c <= '\u{200a}') || c == '\u{2028}' || c == '\u{2029}' || c
        == '\u{202f}' || c == '\u{205f}' || c == '\u{3000}'
}

/// Whether trimming takes `c` away: the given character, or white space where none is given.
pub open spec fn trims(c: char, only: Option<char>) -> bool {
    match only {
        Some(q) => c == q,
        None => is_white_space(c),
    }
}

/// `s` without the leading characters that trimming takes away.
pub open spec fn without_leading(s: Seq<char>, only: Option<char>) -> Seq<char>
    decreases s.len(),
{
    if s.len() > 0 && trims(s[0], only) {
        without_leading(s.drop_first(), only)
    } else {
        s
    }
}

/// `s` without the trailing characters that trimming takes away.
pub open spec fn without_trailing(s: Seq<char>, only: Option<char>) -> Seq<char>
    decreases s.len(),
{
    if s.len() > 0 && trims(s.last(), only) {
        without_trailing(s.drop_last(), only)
    } else {
        s
    }
}

/// `s` without white space at either end.
pub open spec fn trimmed(s: Seq<char>) -> Seq<char> {
    without_trailing(without_leading(s, None), None)
}

/// `s` without the character `q` at either end.
pub open spec fn trimmed_of(s: Seq<char>, q: char) -> Seq<char> {
    without_trailing(without_leading(s, Some(q)), Some(q))
}

fn trims_char(c: char, only: Option<char>) -> (r: bool)
    ensures
        r == trims(c, only),
{
    match only {
        Some(q) => c == q,
        None => white_space(c),
    }
}

fn trim_by(text: &str, only: Option<char>) -> (r: String)
    ensures
        r@ == without_trailing(without_leading(text@, only), only),
{
    let chars = chars_of(text);
    let mut start: usize = 0;
    assert(text@.skip(0) =~= text@);
    while start < chars.len() && trims_char(chars[start], only)
        invariant
            start <= chars@.len(),
            chars@ == text@,
            without_leading(text@.skip(start as int), only) == without_leading(text@, only),
        decreases chars@.len() - start,
    {
        assert(text@.skip(start as int).drop_first() =~= text@.skip(start + 1));
        start += 1;
    }
    let ghost led = text@.skip(start as int);
    assert(led == without_leading(text@, only));
    let mut end: usize = chars.len();
    assert(text@.subrange(start as int, end as int) =~= led);
    while end > start && trims_char(chars[end - 1], only)
        invariant
            start <= end <= chars@.len(),
            chars@ == text@,
            without_trailing(text@.subrange(start as int, end as int), only) == without_trailing(
                led,
                only,
            ),
        decreases end,
    {
        assert(text@.subrange(start as int, end as int).drop_last() =~= text@.subrange(
            start as int,
            end - 1,
        ));
        end -= 1;
    }
    string_of_range(chars.as_slice(), start, end)
}

/// The text without white space at either end, as `str::trim` gives it.
pub fn trim(text: &str) -> (r: String)
    ensures
        r@ == trimmed(text@),
{
    trim_by(text, None)
}

/// The text without `q` at either end, as `str::trim_matches` gives it.
pub fn trim_matches(text: &str, q: char) -> (r: String)
    ensures
        r@ == trimmed_of(text@, q),
{
    trim_by(text, Some(q))
}

/// Whether the text holds nothing but white space.
pub open spec fn is_blank(s: Seq<char>) -> bool {
    trimmed(s).len() == 0
}

/// Whether the text holds nothing but white space.
pub fn blank(text: &str) -> (r: bool)
    ensures
        r == is_blank(text@),
{
    trim(text).as_str().is_empty()
}

/// Where the first white space stands; the length where there is none.
pub open spec fn word_end(s: Seq<char>) -> int
    decreases s.len(),
{
    if s.len() == 0 || is_white_space(s[0]) {
        0
    } else {
        1 + word_end(s.drop_first())
    }
}

/// The words of a text: its runs of characters that are no white space.
pub open spec fn words_of(s: Seq<char>) -> Seq<Seq<char>>
    decreases s.len(),
{
    if s.len() == 0 {
        Seq::empty()
    } else if is_white_space(s[0]) {
        words_of(s.drop_first())
    } else {
        let end = word_end(s);
        if 0 < end <= s.len() {
            seq![s.take(end)] + words_of(s.skip(end))
        } else {
            Seq::empty()
        }
    }
}

/// The words of a text, as `str::split_whitespace` gives them.
pub fn words(text: &str) -> (r: Vec<String>)
    ensures
        texts(r@) == words_of(text@),
{
    let chars = chars_of(text);
    let mut out: Vec<String> = Vec::new();
    let mut i: usize = 0;
    assert(text@.skip(0) =~= text@);
    assert(texts(out@) + words_of(text@) =~= words_of(text@));
    while i < chars.len()
        invariant
            i <= chars@.len(),
            chars@ == text@,
            texts(out@) + words_of(text@.skip(i as int)) == words_of(text@),
        decreases chars@.len() - i,
    {
        let ghost rest = text@.skip(i as int);
        assert(rest.drop_first() =~= text@.skip(i + 1));
        if white_space(chars[i]) {
            i += 1;
        } else {
            let start: usize = i;
            let mut end: usize = i;
            assert(text@.skip(start as int) =~= rest);
            while end < chars.len() && !white_space(chars[end])
                invariant
                    start <= end <= chars@.len(),
                    chars@ == text@,
                    rest == text@.skip(start as int),
                    (end - start) + word_end(text@.skip(end as int)) == word_end(rest),
                decreases chars@.len() - end,
            {
                assert(text@.skip(end as int).drop_first() =~= text@.skip(end + 1));
                end += 1;
            }
            let word = string_of_range(chars.as_slice(), start, end);
            let ghost held = out@;
            proof {
                lemma_texts_push(out@, word);
                assert(word@ =~= rest.take(end - start));
                assert(rest.skip(end - start) =~= text@.skip(end as int));
            }
            out.push(word);
            i = end;
            assert(texts(out@) + words_of(text@.skip(i as int)) =~= texts(held) + words_of(rest));
        }
    }
    assert(text@.skip(i as int) =~= Seq::empty());
    assert(texts(out@) + Seq::<Seq<char>>::empty() =~= texts(out@));
    out
}

// ---------------------------------------------------------------------------
// Lines
// ---------------------------------------------------------------------------

/// A line without a carriage return at its end.
pub open spec fn line_body(s: Seq<char>) -> Seq<char> {
    if s.len() > 0 && s.last() == '\r' {
        s.drop_last()
    } else {
        s
    }
}

/// The lines of a text, as `str::lines` gives them: a final line end starts no further line,
/// and a carriage return before a line end belongs to the line end.
pub open spec fn lines_of(s: Seq<char>) -> Seq<Seq<char>> {
    let pieces = split_on(s, '\n');
    let last = pieces.last();
    let ended = Seq::new((pieces.len() - 1) as nat, |i: int| line_body(pieces[i]));
    if last.len() == 0 {
        ended
    } else {
        ended.push(last)
    }
}

/// The lines of `text`.
pub fn lines(text: &str) -> (r: Vec<String>)
    ensures
        texts(r@) == lines_of(text@),
{
    let pieces = split(text, '\n');
    let ghost model = split_on(text@, '\n');
    let mut out: Vec<String> = Vec::new();
    let last: usize = pieces.len() - 1;
    let mut i: usize = 0;
    while i < last
        invariant
            i <= last,
            last == pieces@.len() - 1,
            texts(pieces@) == model,
            texts(out@) == Seq::new(i as nat, |k: int| line_body(model[k])),
        decreases last - i,
    {
        let ghost before = out@;
        assert(model[i as int] == pieces@[i as int]@);
        let chars = chars_of(pieces[i].as_str());
        let n: usize = chars.len();
        let line = if n > 0 && chars[n - 1] == '\r' {
            string_of_range(chars.as_slice(), 0, n - 1)
        } else {
            string_of_range(chars.as_slice(), 0, n)
        };
        assert(line@ =~= line_body(model[i as int]));
        proof {
            lemma_texts_push(out@, line);
        }
        out.push(line);
        i += 1;
        assert(texts(out@) =~= Seq::new(i as nat, |k: int| line_body(model[k])));
    }
    assert(model.last() == pieces@[last as int]@);
    if !pieces[last].as_str().is_empty() {
        let line = pieces[last].clone();
        proof {
            lemma_texts_push(out@, line);
        }
        out.push(line);
    }
    assert(texts(out@) =~= lines_of(text@));
    out
}

// ---------------------------------------------------------------------------
// Placeholders and paths
// ---------------------------------------------------------------------------

/// How often the character `a` stands with `b` right behind it, each pair counted once from the
/// left.
pub open spec fn pair_count(s: Seq<char>, a: char, b: char) -> nat
    decreases s.len(),
{
    if s.len() < 2 {
        0
    } else if s[0] == a && s[1] == b {
        1 + pair_count(s.skip(2), a, b)
    } else {
        pair_count(s.skip(1), a, b)
    }
}

/// Counts the pairs of `a` with `b` right behind it.
pub fn count_pairs(text: &str, a: char, b: char) -> (r: usize)
    ensures
        r == pair_count(text@, a, b),
{
    let chars = chars_of(text);
    let mut i: usize = 0;
    let mut count: usize = 0;
    assert(text@.skip(0) =~= text@);
    while i < chars.len() && chars.len() - i >= 2
        invariant
            i <= chars@.len(),
            chars@ == text@,
            count <= i,
            count + pair_count(text@.skip(i as int), a, b) == pair_count(text@, a, b),
        decreases chars@.len() - i,
    {
        let ghost rest = text@.skip(i as int);
        assert(rest.skip(2) =~= text@.skip(i + 2));
        assert(rest.skip(1) =~= text@.skip(i + 1));
        if chars[i] == a && chars[i + 1] == b {
            count += 1;
            i += 2;
        } else {
            i += 1;
        }
    }
    count
}

/// Where the first pair of `a` with `b` right behind it stands; the length where there is none.
pub open spec fn pair_index(s: Seq<char>, a: char, b: char) -> int
    decreases s.len(),
{
    if s.len() < 2 {
        s.len() as int
    } else if s[0] == a && s[1] == b {
        0
    } else {
        1 + pair_index(s.skip(1), a, b)
    }
}

/// Finds the first pair of `a` with `b` right behind it.
pub fn find_pair(chars: &[char], a: char, b: char) -> (r: usize)
    ensures
        r == pair_index(chars@, a, b),
        r <= chars@.len(),
        r < chars@.len() ==> r + 2 <= chars@.len() && chars@[r as int] == a && chars@[r + 1] == b,
{
    let mut i: usize = 0;
    assert(chars@.skip(0) =~= chars@);
    while i < chars.len()
        invariant
            i <= chars@.len(),
            i + pair_index(chars@.skip(i as int), a, b) == pair_index(chars@, a, b),
        decreases chars@.len() - i,
    {
        let ghost rest = chars@.skip(i as int);
        assert(rest.skip(1) =~= chars@.skip(i + 1));
        if chars.len() - i < 2 {
            return chars.len();
        }
        if chars[i] == a && chars[i + 1] == b {
            return i;
        }
        i += 1;
    }
    i
}

/// The parts of a path that tell it from other paths: the pieces between slashes, without empty
/// ones and without single dots, save a dot that starts a relative path.
pub open spec fn path_parts(pieces: Seq<Seq<char>>) -> Seq<Seq<char>>
    decreases pieces.len(),
{
    if pieces.len() == 0 {
        Seq::empty()
    } else {
        let before = path_parts(pieces.drop_last());
        let piece = pieces.last();
        if piece.len() == 0 || (piece == seq!['.'] && pieces.len() > 1) {
            before
        } else {
            before.push(piece)
        }
    }
}

/// Whether a path starts at the root.
pub open spec fn is_rooted(path: Seq<char>) -> bool {
    path.len() > 0 && path[0] == '/'
}

/// Whether two texts name a path by the same parts.
pub open spec fn same_path_text(a: Seq<char>, b: Seq<char>) -> bool {
    is_rooted(a) == is_rooted(b) && path_parts(split_on(a, '/')) == path_parts(split_on(b, '/'))
}

fn parts_of(pieces: &Vec<String>) -> (r: Vec<String>)
    ensures
        texts(r@) == path_parts(texts(pieces@)),
{
    let mut out: Vec<String> = Vec::new();
    let mut i: usize = 0;
    while i < pieces.len()
        invariant
            i <= pieces@.len(),
            texts(out@) == path_parts(texts(pieces@).take(i as int)),
        decreases pieces@.len() - i,
    {
        let ghost upto = texts(pieces@).take(i + 1);
        assert(upto.drop_last() =~= texts(pieces@).take(i as int));
        assert(upto.last() == pieces@[i as int]@);
        proof {
            reveal_strlit(".");
            assert("."@ =~= seq!['.']);
        }
        let skip = pieces[i].as_str().is_empty() || (same_text(pieces[i].as_str(), ".") && i > 0);
        if !skip {
            let piece = pieces[i].clone();
            proof {
                lemma_texts_push(out@, piece);
            }
            out.push(piece);
        }
        i += 1;
    }
    assert(texts(pieces@).take(i as int) =~= texts(pieces@));
    out
}

fn same_list(a: &Vec<String>, b: &Vec<String>) -> (r: bool)
    ensures
        r == (texts(a@) == texts(b@)),
{
    if a.len() != b.len() {
        assert(texts(a@).len() != texts(b@).len());
        return false;
    }
    let mut i: usize = 0;
    while i < a.len()
        invariant
            i <= a@.len(),
            a@.len() == b@.len(),
            forall|j: int| 0 <= j < i ==> a@[j]@ == b@[j]@,
        decreases a@.len() - i,
    {
        if !same_text(a[i].as_str(), b[i].as_str()) {
            assert(texts(a@)[i as int] != texts(b@)[i as int]);
            return false;
        }
        i += 1;
    }
    assert(texts(a@) =~= texts(b@));
    true
}

/// Whether two texts name a path by the same parts, as `==` of paths compares them.
pub fn same_path(a: &str, b: &str) -> (r: bool)
    ensures
        r == same_path_text(a@, b@),
{
    let a_rooted = a.unicode_len() > 0 && a.get_char(0) == '/';
    let b_rooted = b.unicode_len() > 0 && b.get_char(0) == '/';
    let a_parts = parts_of(&split(a, '/'));
    let b_parts = parts_of(&split(b, '/'));
    a_rooted == b_rooted && same_list(&a_parts, &b_parts)
}

/// Whether two optional texts are both absent or name the same path.
pub open spec fn same_opt_path_text(a: Option<String>, b: Option<String>) -> bool {
    match (a, b) {
        (Some(x), Some(y)) => same_path_text(x@, y@),
        (None, None) => true,
        _ => false,
    }
}

/// Whether two optional texts are both absent or name the same path.
pub fn same_opt_path(a: &Option<String>, b: &Option<String>) -> (r: bool)
    ensures
        r == same_opt_path_text(*a, *b),
{
    match (a, b) {
        (Some(x), Some(y)) => same_path(x.as_str(), y.as_str()),
        (None, None) => true,
        _ => false,
    }
}

// ---------------------------------------------------------------------------
// Numbers
// ---------------------------------------------------------------------------

/// The character of a decimal digit.
pub open spec fn digit(d: nat) -> char {
    (48 + d) as char
}

/// The decimal digits of a number, most significant first.
pub open spec fn decimal(n: nat) -> Seq<char>
    decreases n,
{
    if n < 10 {
        seq![digit(n)]
    } else {
        decimal(n / 10).push(digit(n % 10))
    }
}

/// The decimal text of a number that may be negative.
pub open spec fn decimal_int(n: int) -> Seq<char> {
    if n < 0 {
        seq!['-'] + decimal((-n) as nat)
    } else {
        decimal(n as nat)
    }
}

fn digit_char(d: u8) -> (r: char)
    requires
        d < 10,
    ensures
        r == digit(d as nat),
{
    (48u8 + d) as char
}

fn push_decimal(out: &mut String, n: u128)
    ensures
        final(out)@ == old(out)@ + decimal(n as nat),
    decreases n,
{
    if n < 10 {
        push_char(out, digit_char(n as u8));
        assert(out@ =~= old(out)@ + decimal(n as nat));
    } else {
        push_decimal(out, n / 10);
        push_char(out, digit_char((n % 10) as u8));
        assert(out@ =~= old(out)@ + decimal(n as nat));
    }
}

/// A number in decimal.
pub fn decimal_text(n: u128) -> (r: String)
    ensures
        r@ == decimal(n as nat),
{
    let mut out = String::new();
    push_decimal(&mut out, n);
    assert(out@ =~= decimal(n as nat));
    out
}

/// A number in decimal.
pub fn u64_text(n: u64) -> (r: String)
    ensures
        r@ == decimal(n as nat),
{
    decimal_text(n as u128)
}

/// A number in decimal.
pub fn usize_text(n: usize) -> (r: String)
    ensures
        r@ == decimal(n as nat),
{
    decimal_text(n as u128)
}

/// A number in decimal, with a minus sign where it is negative.
pub fn i64_text(n: i64) -> (r: String)
    ensures
        r@ == decimal_int(n as int),
{
    if n < 0 {
        let magnitude: i128 = 0i128 - (n as i128);
        let mut out = String::new();
        push_char(&mut out, '-');
        assert(out@ =~= seq!['-']);
        push_decimal(&mut out, magnitude as u128);
        out
    } else {
        decimal_text(n as u128)
    }
}

/// Why a text is no unsigned number.
#[derive(Clone, Copy, Debug, PartialEq, Eq, Structural)]
pub enum NumberError {
    Empty,
    InvalidDigit,
    Overflow,
}

impl NumberError {
    /// What the error says.
    pub open spec fn text(self) -> Seq<char> {
        match self {
            NumberError::Empty => "cannot parse integer from empty string"@,
            NumberError::InvalidDigit => "invalid digit found in string"@,
            NumberError::Overflow => "number too large to fit in target type"@,
        }
    }

    /// What the error says.
    pub fn as_str(self) -> (r: &'static str)
        ensures
            r@ == self.text(),
    {
        match self {
            NumberError::Empty => "cannot parse integer from empty string",
            NumberError::InvalidDigit => "invalid digit found in string",
            NumberError::Overflow => "number too large to fit in target type",
        }
    }
}

/// Whether `c` is a decimal digit.
pub open spec fn is_digit(c: char) -> bool {
    '0' <= c <= '9'
}

/// The number that a run of digits writes, read from the left and stopped by the first
/// character that is no digit or takes the value past `max`.
pub open spec fn read_digits(s: Seq<char>, max: nat) -> Result<nat, NumberError>
    decreases s.len(),
{
    if s.len() == 0 {
        Ok(0nat)
    } else {
        match read_digits(s.drop_last(), max) {
            Err(error) => Err(error),
            Ok(value) => if !is_digit(s.last()) {
                Err(NumberError::InvalidDigit)
            } else if value * 10 + (s.last() as nat - 48) > max {
                Err(NumberError::Overflow)
            } else {
                Ok((value * 10 + (s.last() as nat - 48)) as nat)
            },
        }
    }
}

/// The unsigned number that a text writes, as `str::parse` reads it: decimal digits, with a
/// plus sign before them or none.
pub open spec fn read_unsigned(s: Seq<char>, max: nat) -> Result<nat, NumberError> {
    if s.len() == 0 {
        Err(NumberError::Empty)
    } else if s[0] == '+' {
        if s.len() == 1 {
            Err(NumberError::InvalidDigit)
        } else {
            read_digits(s.skip(1), max)
        }
    } else {
        read_digits(s, max)
    }
}

proof fn lemma_read_digits_error_stays(s: Seq<char>, k: int, max: nat)
    requires
        0 <= k <= s.len(),
        read_digits(s.take(k), max) is Err,
    ensures
        read_digits(s, max) == read_digits(s.take(k), max),
    decreases s.len() - k,
{
    if k < s.len() {
        assert(s.take(k + 1).drop_last() =~= s.take(k));
        lemma_read_digits_error_stays(s, k + 1, max);
    } else {
        assert(s.take(k) =~= s);
    }
}

proof fn lemma_read_digits_bound(s: Seq<char>, max: nat)
    ensures
        read_digits(s, max) is Ok ==> read_digits(s, max)->Ok_0 <= max,
{
}

fn parse_digits(chars: &[char], max: u64) -> (r: Result<u64, NumberError>)
    ensures
        match r {
            Ok(value) => read_digits(chars@, max as nat) == Ok::<nat, NumberError>(value as nat),
            Err(error) => read_digits(chars@, max as nat) == Err::<nat, NumberError>(error),
        },
{
    let mut value: u64 = 0;
    let mut i: usize = 0;
    assert(chars@.take(0) =~= Seq::empty());
    while i < chars.len()
        invariant
            i <= chars@.len(),
            value <= max,
            read_digits(chars@.take(i as int), max as nat) == Ok::<nat, NumberError>(value as nat),
        decreases chars@.len() - i,
    {
        let c = chars[i];
        let ghost upto = chars@.take(i + 1);
        assert(upto.drop_last() =~= chars@.take(i as int));
        assert(upto.last() == c);
        if !('0' <= c && c <= '9') {
            proof {
                lemma_read_digits_error_stays(chars@, i + 1, max as nat);
            }
            return Err(NumberError::InvalidDigit);
        }
        let d: u64 = c as u64 - 48;
        let next: u128 = (value as u128) * 10 + (d as u128);
        if next > max as u128 {
            proof {
                lemma_read_digits_error_stays(chars@, i + 1, max as nat);
            }
            return Err(NumberError::Overflow);
        }
        value = next as u64;
        i += 1;
    }
    assert(chars@.take(i as int) =~= chars@);
    Ok(value)
}

/// Reads an unsigned number that is at most `max`.
pub fn parse_unsigned(text: &str, max: u64) -> (r: Result<u64, NumberError>)
    ensures
        match r {
            Ok(value) => read_unsigned(text@, max as nat) == Ok::<nat, NumberError>(value as nat)
                && value <= max,
            Err(error) => read_unsigned(text@, max as nat) == Err::<nat, NumberError>(error),
        },
{
    let chars = chars_of(text);
    proof {
        lemma_read_digits_bound(text@, max as nat);
        lemma_read_digits_bound(text@.skip(1), max as nat);
    }
    if chars.len() == 0 {
        return Err(NumberError::Empty);
    }
    if chars[0] == '+' {
        if chars.len() == 1 {
            return Err(NumberError::InvalidDigit);
        }
        let rest = vstd::slice::slice_subrange(chars.as_slice(), 1, chars.len());
        assert(rest@ =~= text@.skip(1));
        parse_digits(rest, max)
    } else {
        parse_digits(chars.as_slice(), max)
    }
}

proof fn lemma_decimal_digits(n: nat, max: nat)
    requires
        n <= max,
    ensures
        decimal(n).len() >= 1,
        is_digit(decimal(n)[0]),
        read_digits(decimal(n), max) == Ok::<nat, NumberError>(n),
    decreases n,
{
    if n < 10 {
        assert(decimal(n).drop_last() =~= Seq::empty());
        assert(read_digits(Seq::<char>::empty(), max) == Ok::<nat, NumberError>(0nat));
    } else {
        lemma_decimal_digits(n / 10, max);
        assert(decimal(n).drop_last() =~= decimal(n / 10));
        assert(decimal(n).last() == digit(n % 10));
        assert(decimal(n)[0] == decimal(n / 10)[0]);
    }
}

/// Reading the decimal text of a number gives the number back.
pub proof fn law_decimal_round_trip(n: nat, max: nat)
    requires
        n <= max,
    ensures
        read_unsigned(decimal(n), max) == Ok::<nat, NumberError>(n),
{
    lemma_decimal_digits(n, max);
}

/// How many bytes text takes as UTF-8.
pub open spec fn byte_len(text: Seq<char>) -> nat {
    utf8_bytes(text).len()
}

/// Text put together takes the bytes of its parts, one after the other.
pub proof fn lemma_utf8_concat(a: Seq<char>, b: Seq<char>)
    ensures
        utf8_bytes(a + b) == utf8_bytes(a) + utf8_bytes(b),
        byte_len(a + b) == byte_len(a) + byte_len(b),
    decreases a.len(),
{
    if a.len() == 0 {
        assert(a + b =~= b);
        assert(utf8_bytes(a) + utf8_bytes(b) =~= utf8_bytes(b));
    } else {
        assert((a + b).drop_first() =~= a.drop_first() + b);
        lemma_utf8_concat(a.drop_first(), b);
        assert(utf8_bytes(a + b) =~= utf8_bytes(a) + utf8_bytes(b));
    }
}

/// How many bytes some text takes.
pub fn byte_length(text: &str) -> (r: usize)
    ensures
        r == byte_len(text@),
{
    text.as_bytes().len()
}

/// How many bytes a character takes.
pub open spec fn char_width(c: char) -> nat {
    vstd::utf8::encode_scalar(c as u32).len()
}

fn width_of(c: char) -> (r: usize)
    ensures
        r == char_width(c),
{
    let code = c as u32;
    if code < 0x80 {
        1
    } else if code < 0x800 {
        2
    } else if code < 0x1_0000 {
        proof {
            vstd::utf8::char_is_scalar(c);
        }
        3
    } else {
        4
    }
}

/// The longest beginning of some text that takes at most so many bytes.
pub open spec fn fitting_prefix(text: Seq<char>, max: nat) -> Seq<char>
    decreases text.len(),
{
    if text.len() == 0 || byte_len(text) <= max {
        text
    } else {
        fitting_prefix(text.drop_last(), max)
    }
}

proof fn lemma_bytes_push(text: Seq<char>, c: char)
    ensures
        byte_len(text.push(c)) == byte_len(text) + char_width(c),
{
    assert(text.push(c) =~= text + seq![c]);
    lemma_utf8_concat(text, seq![c]);
    assert(seq![c].drop_first() =~= Seq::empty());
    assert(utf8_bytes(Seq::empty()).len() == 0);
    assert(utf8_bytes(seq![c]) =~= vstd::utf8::encode_scalar(c as u32) + utf8_bytes(Seq::empty()));
}

proof fn lemma_fitting_prefix(text: Seq<char>, max: nat, k: int)
    requires
        0 <= k < text.len(),
        byte_len(text.take(k)) <= max < byte_len(text.take(k + 1)),
    ensures
        fitting_prefix(text, max) == text.take(k),
    decreases text.len(),
{
    if text.len() == k + 1 {
        assert(text.take(k + 1) =~= text);
        assert(text.drop_last() =~= text.take(k));
        assert(fitting_prefix(text.drop_last(), max) == text.drop_last());
    } else {
        assert(text.take(k + 1) + text.skip(k + 1) =~= text);
        lemma_utf8_concat(text.take(k + 1), text.skip(k + 1));
        assert(text.drop_last().take(k) =~= text.take(k));
        assert(text.drop_last().take(k + 1) =~= text.take(k + 1));
        lemma_fitting_prefix(text.drop_last(), max, k);
    }
}

/// The longest beginning of some text takes no more bytes than were allowed.
pub proof fn lemma_fitting_prefix_fits(text: Seq<char>, max: nat)
    ensures
        byte_len(fitting_prefix(text, max)) <= max,
    decreases text.len(),
{
    if text.len() == 0 {
        assert(utf8_bytes(text).len() == 0);
    } else if byte_len(text) > max {
        lemma_fitting_prefix_fits(text.drop_last(), max);
    }
}

/// Cuts text to at most so many bytes, between characters.
pub fn cut_to_bytes(text: &str, max: usize) -> (r: String)
    ensures
        r@ == fitting_prefix(text@, max as nat),
{
    if byte_length(text) <= max {
        return text.to_owned();
    }
    let chars = chars_of(text);
    let mut end: usize = 0;
    let mut used: usize = 0;
    assert(chars@.take(0) =~= Seq::empty());
    assert(utf8_bytes(Seq::empty()).len() == 0);
    while end < chars.len()
        invariant
            end <= chars@.len(),
            chars@ == text@,
            used == byte_len(chars@.take(end as int)),
            used <= max,
            byte_len(text@) > max,
        decreases chars@.len() - end,
    {
        let width: usize = width_of(chars[end]);
        proof {
            assert(chars@.take(end + 1) =~= chars@.take(end as int).push(chars@[end as int]));
            lemma_bytes_push(chars@.take(end as int), chars@[end as int]);
        }
        if width > max - used {
            proof {
                lemma_fitting_prefix(text@, max as nat, end as int);
                assert(text@.take(end as int) =~= chars@.subrange(0, end as int));
            }
            return string_of_range(&chars, 0, end);
        }
        used += width;
        end += 1;
    }
    assert(chars@.take(end as int) =~= text@);
    string_of(&chars)
}

/// A text that may be absent, or another in its place.
pub open spec fn text_or(value: Option<String>, other: Seq<char>) -> Seq<char> {
    match value {
        Some(text) => text@,
        None => other,
    }
}

/// A text that may be absent, or another in its place.
pub fn opt_or(value: &Option<String>, other: &str) -> (r: String)
    ensures
        r@ == text_or(*value, other@),
{
    match value {
        Some(text) => text.clone(),
        None => other.to_owned(),
    }
}

/// Whether some text stands within another at a place.
pub open spec fn holds_at(text: Seq<char>, part: Seq<char>, i: int) -> bool {
    0 <= i && i + part.len() <= text.len() && text.subrange(i, i + part.len()) == part
}

/// Whether some text stands anywhere within another.
pub open spec fn holds_part(text: Seq<char>, part: Seq<char>) -> bool {
    exists|i: int| #[trigger] holds_at(text, part, i)
}

/// The first place from `from` on where some text stands within another.
pub open spec fn first_place(text: Seq<char>, part: Seq<char>, from: int) -> Option<int>
    decreases text.len() + 1 - from,
{
    if from < 0 || from + part.len() > text.len() {
        None
    } else if holds_at(text, part, from) {
        Some(from)
    } else {
        first_place(text, part, from + 1)
    }
}

/// The last place up to `upto` where some text stands within another.
pub open spec fn last_place(text: Seq<char>, part: Seq<char>, upto: int) -> Option<int>
    decreases upto + 1,
{
    if upto < 0 {
        None
    } else if holds_at(text, part, upto) {
        Some(upto)
    } else {
        last_place(text, part, upto - 1)
    }
}

/// A place that is found from the front is one where the text stands, and no earlier one is.
pub proof fn lemma_first_place(text: Seq<char>, part: Seq<char>, from: int)
    ensures
        first_place(text, part, from) matches Some(i) ==> from <= i && holds_at(text, part, i),
        0 <= from && first_place(text, part, from) is None ==> forall|i: int|
            from <= i ==> !#[trigger] holds_at(text, part, i),
    decreases text.len() + 1 - from,
{
    if 0 <= from && from + part.len() <= text.len() && !holds_at(text, part, from) {
        lemma_first_place(text, part, from + 1);
        assert forall|i: int|
            first_place(text, part, from) is None && from <= i implies !#[trigger] holds_at(
            text,
            part,
            i,
        ) by {
            if i > from {
            }
        }
    }
}

/// A place that is found from the back is one where the text stands.
pub proof fn lemma_last_place(text: Seq<char>, part: Seq<char>, upto: int)
    ensures
        last_place(text, part, upto) matches Some(i) ==> i <= upto && holds_at(text, part, i),
    decreases upto + 1,
{
    if upto >= 0 && !holds_at(text, part, upto) {
        lemma_last_place(text, part, upto - 1);
    }
}

fn stands_at(chars: &[char], part: &[char], at: usize) -> (r: bool)
    ensures
        r == holds_at(chars@, part@, at as int),
{
    if at > chars.len() || part.len() > chars.len() - at {
        return false;
    }
    let length: usize = chars.len();
    let mut k: usize = 0;
    while k < part.len()
        invariant
            length == chars@.len(),
            at + part@.len() <= length,
            k <= part@.len(),
            forall|j: int| 0 <= j < k ==> chars@[at + j] == part@[j],
        decreases part@.len() - k,
    {
        if chars[at + k] != part[k] {
            proof {
                assert(chars@.subrange(at as int, at + part@.len())[k as int] == chars@[at + k]);
            }
            return false;
        }
        k += 1;
    }
    assert(chars@.subrange(at as int, at + part@.len()) =~= part@);
    true
}

/// Looks for some text from the front.
pub fn find_part(chars: &[char], part: &[char]) -> (r: Option<usize>)
    ensures
        match r {
            Some(i) => first_place(chars@, part@, 0) == Some(i as int),
            None => first_place(chars@, part@, 0) is None,
        },
{
    if part.len() > chars.len() {
        return None;
    }
    let last: usize = chars.len() - part.len();
    let mut i: usize = 0;
    loop
        invariant
            last == chars@.len() - part@.len(),
            i <= last,
            first_place(chars@, part@, 0) == first_place(chars@, part@, i as int),
        decreases last - i,
    {
        if stands_at(chars, part, i) {
            return Some(i);
        }
        if i == last {
            assert(first_place(chars@, part@, i + 1) is None);
            return None;
        }
        i += 1;
    }
}

/// Looks for some text from the back.
pub fn find_last_part(chars: &[char], part: &[char]) -> (r: Option<usize>)
    ensures
        match r {
            Some(i) => last_place(chars@, part@, chars@.len() as int) == Some(i as int),
            None => last_place(chars@, part@, chars@.len() as int) is None,
        },
{
    let mut i: usize = chars.len();
    loop
        invariant
            i <= chars@.len(),
            last_place(chars@, part@, chars@.len() as int) == last_place(chars@, part@, i as int),
        decreases i,
    {
        if stands_at(chars, part, i) {
            return Some(i);
        }
        if i == 0 {
            assert(last_place(chars@, part@, -1) is None);
            return None;
        }
        i -= 1;
    }
}

/// Looks for some text within another.
pub fn contains(text: &str, part: &str) -> (r: bool)
    ensures
        r == holds_part(text@, part@),
{
    proof {
        lemma_first_place(text@, part@, 0);
    }
    let chars = chars_of(text);
    let wanted = chars_of(part);
    match find_part(&chars, &wanted) {
        Some(i) => {
            assert(holds_at(text@, part@, i as int));
            true
        },
        None => {
            assert(forall|i: int| #[trigger] holds_at(text@, part@, i) ==> 0 <= i);
            false
        },
    }
}

/// The first place of a character: it stands there, and not before.
pub proof fn law_first_index(s: Seq<char>, c: char)
    ensures
        0 <= index_of(s, c) <= s.len(),
        index_of(s, c) < s.len() ==> s[index_of(s, c)] == c,
        forall|i: int| 0 <= i < index_of(s, c) ==> #[trigger] s[i] != c,
    decreases s.len(),
{
    if s.len() > 0 && s[0] != c {
        let rest = s.drop_first();
        law_first_index(rest, c);
        assert forall|i: int| 0 <= i < index_of(s, c) implies #[trigger] s[i] != c by {
            if i > 0 {
                assert(rest[i - 1] == s[i]);
            }
        }
    }
}

/// Splitting once gives what stands before and behind the first separator, and nothing where there
/// is none.
pub proof fn law_split_once_parts(s: Seq<char>, c: char)
    ensures
        split_once_on(s, c) is Some <==> s.contains(c),
        split_once_on(s, c) matches Some((before, after)) ==> s == before + seq![c] + after
            && !before.contains(c),
{
    law_first_index(s, c);
    let i = index_of(s, c);
    if i < s.len() {
        assert(s =~= s.take(i) + seq![c] + s.skip(i + 1));
        assert(s.contains(c));
        if s.take(i).contains(c) {
            let k = choose|k: int| 0 <= k < s.take(i).len() && s.take(i)[k] == c;
            assert(s[k] == c);
        }
    } else if s.contains(c) {
        let k = choose|k: int| 0 <= k < s.len() && s[k] == c;
        assert(s[k] != c);
    }
}

proof fn lemma_joined_front(first: Seq<char>, list: Seq<Seq<char>>, separator: Seq<char>)
    requires
        list.len() >= 1,
    ensures
        joined(seq![first] + list, separator) == first + separator + joined(list, separator),
    decreases list.len(),
{
    let all = seq![first] + list;
    assert(all.drop_last() =~= seq![first] + list.drop_last());
    assert(all.last() == list.last());
    if list.len() == 1 {
        assert(all.drop_last() =~= seq![first]);
        assert(joined(all.drop_last(), separator) == first);
        assert(joined(all, separator) == first + separator + list.last());
    } else {
        lemma_joined_front(first, list.drop_last(), separator);
        assert(first + separator + joined(list.drop_last(), separator) + separator + list.last()
            =~= first + separator + (joined(list.drop_last(), separator) + separator
            + list.last()));
    }
}

/// Pieces put together again give the text that was split, and no piece holds the separator.
pub proof fn law_split_joins_again(s: Seq<char>, c: char)
    ensures
        joined(split_on(s, c), seq![c]) == s,
        forall|i: int| 0 <= i < split_on(s, c).len() ==> !(#[trigger] split_on(s, c)[i]).contains(c),
    decreases s.len(),
{
    law_first_index(s, c);
    let i = index_of(s, c);
    let pieces = split_on(s, c);
    if i < s.len() {
        let rest = s.skip(i + 1);
        law_split_joins_again(rest, c);
        lemma_split_nonempty(rest, c);
        lemma_joined_front(s.take(i), split_on(rest, c), seq![c]);
        assert(s =~= s.take(i) + seq![c] + rest);
        assert forall|k: int| 0 <= k < pieces.len() implies !(#[trigger] pieces[k]).contains(c) by {
            if k == 0 {
                if s.take(i).contains(c) {
                    let m = choose|m: int| 0 <= m < s.take(i).len() && s.take(i)[m] == c;
                    assert(s[m] == c);
                }
            } else {
                assert(pieces[k] == split_on(rest, c)[k - 1]);
            }
        }
    } else {
        assert(pieces =~= seq![s]);
        if s.contains(c) {
            let k = choose|k: int| 0 <= k < s.len() && s[k] == c;
            assert(s[k] != c);
        }
    }
}

proof fn lemma_without_leading(s: Seq<char>, only: Option<char>)
    ensures
        exists|i: int|
            0 <= i <= s.len() && #[trigger] s.skip(i) == without_leading(s, only) && (forall|k: int|
                0 <= k < i ==> trims(#[trigger] s[k], only)),
        without_leading(s, only).len() > 0 ==> !trims(without_leading(s, only)[0], only),
    decreases s.len(),
{
    if s.len() > 0 && trims(s[0], only) {
        let rest = s.drop_first();
        lemma_without_leading(rest, only);
        let i = choose|i: int|
            0 <= i <= rest.len() && #[trigger] rest.skip(i) == without_leading(rest, only) && (
            forall|k: int| 0 <= k < i ==> trims(#[trigger] rest[k], only));
        assert(rest.skip(i) =~= s.skip(i + 1));
        assert forall|k: int| 0 <= k < i + 1 implies trims(#[trigger] s[k], only) by {
            if k > 0 {
                assert(rest[k - 1] == s[k]);
            }
        }
        assert(s.skip(i + 1) == without_leading(s, only));
    } else {
        assert(s.skip(0) =~= s);
    }
}

proof fn lemma_without_trailing(s: Seq<char>, only: Option<char>)
    ensures
        exists|j: int|
            0 <= j <= s.len() && #[trigger] s.take(j) == without_trailing(s, only) && (forall|k: int|
                j <= k < s.len() ==> trims(#[trigger] s[k], only)),
        without_trailing(s, only).len() > 0 ==> !trims(without_trailing(s, only).last(), only),
    decreases s.len(),
{
    if s.len() > 0 && trims(s.last(), only) {
        let rest = s.drop_last();
        lemma_without_trailing(rest, only);
        let j = choose|j: int|
            0 <= j <= rest.len() && #[trigger] rest.take(j) == without_trailing(rest, only) && (
            forall|k: int| j <= k < rest.len() ==> trims(#[trigger] rest[k], only));
        assert(rest.take(j) =~= s.take(j));
        assert forall|k: int| j <= k < s.len() implies trims(#[trigger] s[k], only) by {
            if k < rest.len() {
                assert(rest[k] == s[k]);
            }
        }
        assert(s.take(j) == without_trailing(s, only));
    } else {
        assert(s.take(s.len() as int) =~= s);
    }
}

/// A trimmed text is what is left between white space at both ends: nothing else is cut off, and
/// none is left there.
pub proof fn law_trimmed_is_the_middle(s: Seq<char>)
    ensures
        exists|i: int, j: int|
            0 <= i <= j <= s.len() && #[trigger] s.subrange(i, j) == trimmed(s) && (forall|k: int|
                0 <= k < i ==> is_white_space(#[trigger] s[k])) && (forall|k: int|
                j <= k < s.len() ==> is_white_space(#[trigger] s[k])),
        trimmed(s).len() > 0 ==> !is_white_space(trimmed(s)[0]) && !is_white_space(
            trimmed(s).last(),
        ),
{
    let front = without_leading(s, None);
    lemma_without_leading(s, None);
    lemma_without_trailing(front, None);
    let i = choose|i: int|
        0 <= i <= s.len() && #[trigger] s.skip(i) == front && (forall|k: int|
            0 <= k < i ==> trims(#[trigger] s[k], None));
    let j = choose|j: int|
        0 <= j <= front.len() && #[trigger] front.take(j) == without_trailing(front, None) && (
        forall|k: int| j <= k < front.len() ==> trims(#[trigger] front[k], None));
    assert(front.take(j) =~= s.subrange(i, i + j));
    assert forall|k: int| i + j <= k < s.len() implies is_white_space(#[trigger] s[k]) by {
        assert(front[k - i] == s[k]);
        assert(trims(front[k - i], None));
    }
    assert forall|k: int| 0 <= k < i implies is_white_space(#[trigger] s[k]) by {
        assert(trims(s[k], None));
    }
    assert(s.subrange(i, i + j) == trimmed(s));
    if trimmed(s).len() > 0 {
        assert(trimmed(s)[0] == front[0]);
    }
}

proof fn lemma_word_end(s: Seq<char>)
    ensures
        0 <= word_end(s) <= s.len(),
        forall|i: int| 0 <= i < word_end(s) ==> !is_white_space(#[trigger] s[i]),
        word_end(s) < s.len() ==> is_white_space(s[word_end(s)]),
    decreases s.len(),
{
    if s.len() > 0 && !is_white_space(s[0]) {
        let rest = s.drop_first();
        lemma_word_end(rest);
        assert forall|i: int| 0 <= i < word_end(s) implies !is_white_space(#[trigger] s[i]) by {
            if i > 0 {
                assert(rest[i - 1] == s[i]);
            }
        }
    }
}

/// Whether a text holds any white space.
pub open spec fn has_white_space(s: Seq<char>) -> bool {
    exists|k: int| 0 <= k < s.len() && is_white_space(#[trigger] s[k])
}

/// No word is empty or holds white space, and a text without white space is its only word.
pub proof fn law_words_hold_no_space(s: Seq<char>)
    ensures
        forall|i: int|
            0 <= i < words_of(s).len() ==> (#[trigger] words_of(s)[i]).len() > 0 && !has_white_space(
                words_of(s)[i],
            ),
        s.len() > 0 && (forall|k: int| 0 <= k < s.len() ==> !is_white_space(#[trigger] s[k]))
            ==> words_of(s) == seq![s],
    decreases s.len(),
{
    if s.len() > 0 {
        if is_white_space(s[0]) {
            law_words_hold_no_space(s.drop_first());
            assert(words_of(s) == words_of(s.drop_first()));
        } else {
            lemma_word_end(s);
            let end = word_end(s);
            assert(end > 0);
            let rest = s.skip(end);
            law_words_hold_no_space(rest);
            let list = words_of(s);
            assert(list == seq![s.take(end)] + words_of(rest));
            assert forall|i: int| 0 <= i < list.len() implies (#[trigger] list[i]).len() > 0
                && !has_white_space(list[i]) by {
                if i > 0 {
                    assert(list[i] == words_of(rest)[i - 1]);
                } else {
                    assert(list[0] == s.take(end));
                    assert forall|k: int| 0 <= k < s.take(end).len() implies !is_white_space(
                        #[trigger] s.take(end)[k],
                    ) by {
                        assert(s.take(end)[k] == s[k]);
                    }
                }
            }
            if end == s.len() {
                assert(s.take(end) =~= s);
                assert(rest.len() == 0 && words_of(rest) =~= Seq::empty());
                assert(list =~= seq![s]);
            }
        }
    }
}

/// Words are those of the text's parts on both sides of any white space.
pub proof fn law_space_parts_words(s: Seq<char>, c: char, rest: Seq<char>)
    requires
        is_white_space(c),
    ensures
        words_of(s + seq![c] + rest) == words_of(s) + words_of(rest),
    decreases s.len(),
{
    let all = s + seq![c] + rest;
    if s.len() == 0 {
        assert(all[0] == c);
        assert(all.drop_first() =~= rest);
        assert(words_of(s) + words_of(rest) =~= words_of(rest));
    } else if is_white_space(s[0]) {
        assert(all.drop_first() =~= s.drop_first() + seq![c] + rest);
        law_space_parts_words(s.drop_first(), c, rest);
    } else {
        lemma_word_end(s);
        lemma_word_end_before(s, c, rest);
        let end = word_end(s);
        assert(all.take(end) =~= s.take(end));
        assert(all.skip(end) =~= s.skip(end) + seq![c] + rest);
        law_space_parts_words(s.skip(end), c, rest);
        assert(seq![s.take(end)] + (words_of(s.skip(end)) + words_of(rest)) =~= (seq![s.take(end)]
            + words_of(s.skip(end))) + words_of(rest));
    }
}

proof fn lemma_word_end_before(s: Seq<char>, c: char, rest: Seq<char>)
    requires
        is_white_space(c),
    ensures
        word_end(s + seq![c] + rest) == word_end(s),
    decreases s.len(),
{
    let all = s + seq![c] + rest;
    if s.len() == 0 {
        assert(all[0] == c);
    } else if !is_white_space(s[0]) {
        assert(all[0] == s[0]);
        assert(all.drop_first() =~= s.drop_first() + seq![c] + rest);
        lemma_word_end_before(s.drop_first(), c, rest);
    } else {
        assert(all[0] == s[0]);
    }
}

/// What is kept of a text is the longest beginning that fits.
pub proof fn law_longest_fitting_prefix(text: Seq<char>, max: nat)
    ensures
        has_prefix(text, fitting_prefix(text, max)),
        fitting_prefix(text, max).len() == 0 || byte_len(fitting_prefix(text, max)) <= max,
        fitting_prefix(text, max).len() < text.len() ==> byte_len(
            text.take(fitting_prefix(text, max).len() as int + 1),
        ) > max,
    decreases text.len(),
{
    if text.len() == 0 || byte_len(text) <= max {
        assert(text.take(text.len() as int) =~= text);
    } else {
        let front = text.drop_last();
        law_longest_fitting_prefix(front, max);
        let kept = fitting_prefix(text, max);
        assert(text.take(kept.len() as int) =~= front.take(kept.len() as int));
        if kept.len() < front.len() {
            assert(text.take(kept.len() as int + 1) =~= front.take(kept.len() as int + 1));
        } else {
            assert(text.take(kept.len() as int + 1) =~= text);
        }
    }
}

/// A part is found at its first place, and not at all only where it is nowhere.
pub proof fn law_first_place(text: Seq<char>, part: Seq<char>, from: int)
    requires
        0 <= from,
    ensures
        match first_place(text, part, from) {
            Some(at) => from <= at && holds_at(text, part, at) && (forall|i: int|
                from <= i < at ==> !#[trigger] holds_at(text, part, i)),
            None => forall|i: int| from <= i ==> !#[trigger] holds_at(text, part, i),
        },
    decreases text.len() + 1 - from,
{
    if from + part.len() <= text.len() && !holds_at(text, part, from) {
        law_first_place(text, part, from + 1);
    }
}

/// A part is found from behind at its last place, and not at all only where it is nowhere.
pub proof fn law_last_place(text: Seq<char>, part: Seq<char>, upto: int)
    ensures
        match last_place(text, part, upto) {
            Some(at) => at <= upto && holds_at(text, part, at) && (forall|i: int|
                at < i <= upto ==> !#[trigger] holds_at(text, part, i)),
            None => forall|i: int| i <= upto ==> !#[trigger] holds_at(text, part, i),
        },
    decreases upto + 1,
{
    if upto >= 0 && !holds_at(text, part, upto) {
        law_last_place(text, part, upto - 1);
    }
}

/// A number is read digit by digit: one digit more makes it ten times as large and adds the digit,
/// as long as it does not get too large; anything but a digit is an error.
pub proof fn law_digit_by_digit(s: Seq<char>, c: char, max: nat, value: nat)
    requires
        read_digits(s, max) == Ok::<nat, NumberError>(value),
    ensures
        '0' <= c <= '9' && 10 * value + (c as nat - 48) <= max ==> read_digits(s.push(c), max)
            == Ok::<nat, NumberError>((10 * value + (c as nat - 48)) as nat),
        '0' <= c <= '9' && 10 * value + (c as nat - 48) > max ==> read_digits(s.push(c), max)
            == Err::<nat, NumberError>(NumberError::Overflow),
        !('0' <= c <= '9') ==> read_digits(s.push(c), max) == Err::<nat, NumberError>(
            NumberError::InvalidDigit,
        ),
{
    assert(s.push(c).drop_last() =~= s);
}

/// A plus sign before digits changes nothing, and no digits are no number.
pub proof fn law_plus_sign_is_allowed(s: Seq<char>, max: nat)
    ensures
        s.len() > 0 && s[0] != '+' ==> read_unsigned(seq!['+'] + s, max) == read_unsigned(s, max),
        read_unsigned(Seq::empty(), max) is Err,
        read_unsigned(seq!['+'], max) is Err,
{
    assert((seq!['+'] + s).skip(1) =~= s);
}

/// Letters count as the same in either case, and nothing else does.
pub proof fn law_case_is_ignored(a: char, b: char)
    ensures
        ascii_lower(a) == ascii_lower(b) <==> (a == b || ('A' <= a <= 'Z' && b as u32 == a as u32
            + 32) || ('A' <= b <= 'Z' && a as u32 == b as u32 + 32)),
{
    assert('A' as u32 == 65 && 'Z' as u32 == 90);
    assert('A' <= a <= 'Z' ==> ascii_lower(a) as u32 == a as u32 + 32);
    assert('A' <= b <= 'Z' ==> ascii_lower(b) as u32 == b as u32 + 32);
}

proof fn lemma_split_behind(s: Seq<char>, c: char, rest: Seq<char>)
    requires
        !s.contains(c),
    ensures
        split_on(s + seq![c] + rest, c) == seq![s] + split_on(rest, c),
{
    let all = s + seq![c] + rest;
    law_first_index(all, c);
    let i = index_of(all, c);
    if i < s.len() {
        assert(all[i] == s[i]);
        assert(s.contains(c));
    }
    assert(all[s.len() as int] == c);
    assert(i == s.len());
    assert(all.take(i) =~= s);
    assert(all.skip(i + 1) =~= rest);
}

/// A line ends with a line feed, with or without a carriage return before it; what stands behind the
/// last line feed is a line of its own where it is not empty.
pub proof fn law_lines_end_with_feeds(line: Seq<char>, rest: Seq<char>)
    requires
        !line.contains('\n'),
    ensures
        lines_of(line + seq!['\n'] + rest) == seq![
            if line.len() > 0 && line.last() == '\r' {
                line.drop_last()
            } else {
                line
            },
        ] + lines_of(rest),
        line.len() > 0 ==> lines_of(line) == seq![line],
        lines_of(Seq::empty()).len() == 0,
{
    let all = line + seq!['\n'] + rest;
    lemma_split_behind(line, '\n', rest);
    lemma_split_nonempty(rest, '\n');
    let pieces = split_on(all, '\n');
    let later = split_on(rest, '\n');
    assert(pieces.last() == later.last());
    let body = if line.len() > 0 && line.last() == '\r' {
        line.drop_last()
    } else {
        line
    };
    let ended = Seq::new((pieces.len() - 1) as nat, |i: int| line_body(pieces[i]));
    let after = Seq::new((later.len() - 1) as nat, |i: int| line_body(later[i]));
    assert(ended =~= seq![body] + after);
    assert(lines_of(all) =~= seq![body] + lines_of(rest));
    law_first_index(line, '\n');
    if index_of(line, '\n') < line.len() {
        assert(line.contains('\n'));
    }
    assert(split_on(line, '\n') =~= seq![line]);
    assert(lines_of(line) =~= if line.len() > 0 {
        seq![line]
    } else {
        Seq::empty()
    });
    law_first_index(Seq::empty(), '\n');
    assert(split_on(Seq::empty(), '\n') =~= seq![Seq::<char>::empty()]);
}

} // verus!
