//! Text as a sequence of characters: what the rest of the library says about
//! strings, and the string operations it runs.

use vstd::prelude::*;
use vstd::utf8::{decode_utf8, valid_utf8};

verus! {

/// The contents of an optional string.
pub open spec fn optional_text(text: Option<String>) -> Option<Seq<char>> {
    match text {
        Some(t) => Some(t@),
        None => None,
    }
}

/// The contents of a list of strings.
pub open spec fn texts(list: Seq<String>) -> Seq<Seq<char>> {
    list.map_values(|t: String| t@)
}

/// `needle` occurs in `text` as a run of adjacent characters.
pub open spec fn has_text(text: Seq<char>, needle: Seq<char>) -> bool {
    exists|i: int| #[trigger] occurs_at(text, needle, i)
}

/// `needle` occurs in `text` from position `i` on.
pub open spec fn occurs_at(text: Seq<char>, needle: Seq<char>, i: int) -> bool {
    &&& 0 <= i <= text.len() - needle.len()
    &&& text.subrange(i, i + needle.len()) == needle
}

/// The position of the first `c` at or after `from`, or the length of `text`.
pub open spec fn position_from(text: Seq<char>, c: char, from: int) -> int
    decreases text.len() - from,
{
    if from >= text.len() {
        text.len() as int
    } else if text[from] == c {
        from
    } else {
        position_from(text, c, from + 1)
    }
}

/// The characters of Unicode's `White_Space` property.
pub open spec fn is_white_space(c: char) -> bool {
    ||| '\u{9}' <= c <= '\u{d}'
    ||| c == '\u{20}'
    ||| c == '\u{85}'
    ||| c == '\u{a0}'
    ||| c == '\u{1680}'
    ||| '\u{2000}' <= c <= '\u{200a}'
    ||| c == '\u{2028}'
    ||| c == '\u{2029}'
    ||| c == '\u{202f}'
    ||| c == '\u{205f}'
    ||| c == '\u{3000}'
}

/// `text` without the white space that it ends with.
pub open spec fn trimmed_end(text: Seq<char>) -> Seq<char>
    decreases text.len(),
{
    if text.len() > 0 && is_white_space(text.last()) {
        trimmed_end(text.drop_last())
    } else {
        text
    }
}

/// `text` without the white space that it begins with.
pub open spec fn trimmed_start(text: Seq<char>) -> Seq<char>
    decreases text.len(),
{
    if text.len() > 0 && is_white_space(text[0]) {
        trimmed_start(text.skip(1))
    } else {
        text
    }
}

/// `text` without the white space around it.
pub open spec fn trimmed(text: Seq<char>) -> Seq<char> {
    trimmed_end(trimmed_start(text))
}

/// `text` without every copy of `prefix` that it begins with.
pub open spec fn without_prefixes(text: Seq<char>, prefix: Seq<char>) -> Seq<char>
    decreases text.len(),
{
    if prefix.len() > 0 && prefix.is_prefix_of(text) {
        without_prefixes(text.skip(prefix.len() as int), prefix)
    } else {
        text
    }
}

/// `line` without the carriage return that it ends with, if it does.
pub open spec fn without_return(line: Seq<char>) -> Seq<char> {
    if line.len() > 0 && line.last() == '\r' {
        line.drop_last()
    } else {
        line
    }
}

/// The lines of `text`: each ends with a line feed, which a carriage return may
/// precede and which the last line may lack.
pub open spec fn lines(text: Seq<char>) -> Seq<Seq<char>>
    decreases text.len(),
{
    let end = position_from(text, '\n', 0);
    if text.len() == 0 {
        Seq::empty()
    } else if 0 <= end < text.len() {
        seq![without_return(text.take(end))] + lines(text.skip(end + 1))
    } else {
        seq![text]
    }
}

/// The bytes that ASCII counts as white space.
pub open spec fn is_ascii_space(b: u8) -> bool {
    b == 9 || b == 10 || b == 12 || b == 13 || b == 32
}

/// `bytes` without the ASCII white space that they end with.
pub open spec fn ascii_trimmed_end(bytes: Seq<u8>) -> Seq<u8>
    decreases bytes.len(),
{
    if bytes.len() > 0 && is_ascii_space(bytes.last()) {
        ascii_trimmed_end(bytes.drop_last())
    } else {
        bytes
    }
}

/// `bytes` without the ASCII white space around them.
pub open spec fn ascii_trimmed(bytes: Seq<u8>) -> Seq<u8>
    decreases bytes.len(),
{
    if bytes.len() > 0 && is_ascii_space(bytes[0]) {
        ascii_trimmed(bytes.skip(1))
    } else {
        ascii_trimmed_end(bytes)
    }
}

/// The decimal digit of a number below ten.
pub open spec fn digit(n: nat) -> char {
    ('0' as nat + n) as char
}

/// A number in decimal digits, without leading zeros.
pub open spec fn decimal(n: nat) -> Seq<char>
    decreases n,
{
    if n < 10 {
        seq![digit(n)]
    } else {
        decimal(n / 10).push(digit(n % 10))
    }
}

/// What `String::from_utf8_lossy` reads from bytes.
pub uninterp spec fn lossy_text(bytes: Seq<u8>) -> Seq<char>;

/// Calls `String::from_utf8_lossy`: the text that it reads is a function of the
/// bytes, and bytes that are UTF-8 are read as the characters they encode. How
/// it replaces what is not UTF-8 is left unsaid.
#[verifier::external_body]
pub(crate) fn read_lossy(bytes: &Vec<u8>) -> (text: String)
    ensures
        text@ == lossy_text(bytes@),
        valid_utf8(bytes@) ==> text@ == decode_utf8(bytes@),
{
    String::from_utf8_lossy(bytes).into_owned()
}

/// The characters of a string.
pub(crate) fn characters(text: &str) -> (chars: Vec<char>)
    ensures
        chars@ == text@,
{
    let mut chars: Vec<char> = Vec::new();
    for c in iter: text.chars()
        invariant
            iter.seq() == text@,
            chars@ == text@.take(iter.index()),
    {
        chars.push(c);
        assert(text@.take(iter.index()).push(text@[iter.index()]) == text@.take(iter.index() + 1));
    }
    assert(text@.take(text@.len() as int) == text@);
    chars
}

/// Whether two strings hold the same characters.
pub(crate) fn same_text(a: &str, b: &str) -> (same: bool)
    ensures
        same == (a@ == b@),
{
    a.to_owned() == b.to_owned()
}

/// Whether `text` begins with `prefix`.
pub(crate) fn begins_with(text: &str, prefix: &str) -> (begins: bool)
    ensures
        begins == prefix@.is_prefix_of(text@),
{
    occurs(&characters(text), &characters(prefix), 0)
}

/// Whether `needle` stands in `text` at position `at`.
fn occurs(text: &Vec<char>, needle: &Vec<char>, at: usize) -> (found: bool)
    ensures
        found == occurs_at(text@, needle@, at as int),
        at == 0 ==> found == needle@.is_prefix_of(text@),
{
    if needle.len() > text.len() || at > text.len() - needle.len() {
        return false;
    }
    let mut k: usize = 0;
    while k < needle.len()
        invariant
            k <= needle.len(),
            at + needle.len() <= text.len(),
            forall|j: int| 0 <= j < k ==> text@[at + j] == needle@[j],
        decreases needle.len() - k,
    {
        if text[at + k] != needle[k] {
            assert(text@.subrange(at as int, at + needle@.len())[k as int] != needle@[k as int]);
            return false;
        }
        k = k + 1;
    }
    assert(text@.subrange(at as int, at + needle@.len()) =~= needle@);
    true
}

/// Whether `needle` occurs in `text`.
pub(crate) fn contains_text(text: &str, needle: &str) -> (found: bool)
    ensures
        found == has_text(text@, needle@),
{
    let chars = characters(text);
    let wanted = characters(needle);
    let mut i: usize = 0;
    while i < chars.len()
        invariant
            i <= chars.len(),
            chars@ == text@,
            wanted@ == needle@,
            forall|j: int| 0 <= j < i ==> !occurs_at(text@, needle@, j),
        decreases chars.len() - i,
    {
        if occurs(&chars, &wanted, i) {
            return true;
        }
        i = i + 1;
    }
    let found = occurs(&chars, &wanted, i);
    proof {
        if has_text(text@, needle@) && !found {
            let j = choose|j: int| #[trigger] occurs_at(text@, needle@, j);
            assert(0 <= j <= text@.len());
        }
    }
    found
}

/// Whether `c` occurs in `text`.
pub(crate) fn contains_char(text: &str, c: char) -> (found: bool)
    ensures
        found == text@.contains(c),
{
    let chars = characters(text);
    let mut i: usize = 0;
    while i < chars.len()
        invariant
            i <= chars.len(),
            chars@ == text@,
            forall|j: int| 0 <= j < i ==> text@[j] != c,
        decreases chars.len() - i,
    {
        if chars[i] == c {
            return true;
        }
        i = i + 1;
    }
    false
}

/// The position of the first `c` at or after `from`, or the length.
pub(crate) fn find_from(text: &Vec<char>, c: char, from: usize) -> (at: usize)
    requires
        from <= text@.len(),
    ensures
        at == position_from(text@, c, from as int),
        from <= at <= text@.len(),
        at < text@.len() ==> text@[at as int] == c,
{
    let mut i: usize = from;
    while i < text.len()
        invariant
            from <= i <= text.len(),
            position_from(text@, c, from as int) == position_from(text@, c, i as int),
        decreases text.len() - i,
    {
        if text[i] == c {
            return i;
        }
        i = i + 1;
    }
    i
}

/// A part of a string, by character positions.
pub(crate) fn part(text: &str, from: usize, to: usize) -> (piece: String)
    requires
        from <= to <= text@.len(),
    ensures
        piece@ == text@.subrange(from as int, to as int),
{
    text.substring_char(from, to).to_owned()
}

/// Two strings, one after the other.
pub(crate) fn joined(first: &str, second: &str) -> (whole: String)
    ensures
        whole@ == first@ + second@,
{
    let mut whole: String = first.to_owned();
    whole.append(second);
    whole
}

fn white_space(c: char) -> (white: bool)
    ensures
        white == is_white_space(c),
{
    ('\u{9}' <= c && c <= '\u{d}') || c == '\u{20}' || c == '\u{85}' || c == '\u{a0}'
        || c == '\u{1680}' || ('\u{2000}' <= c && c <= '\u{200a}') || c == '\u{2028}'
        || c == '\u{2029}' || c == '\u{202f}' || c == '\u{205f}' || c == '\u{3000}'
}

/// A string without the white space that it ends with.
pub(crate) fn trim_end(text: &str) -> (rest: String)
    ensures
        rest@ == trimmed_end(text@),
{
    let chars = characters(text);
    let mut end: usize = chars.len();
    assert(text@.take(end as int) == text@);
    while end > 0 && white_space(chars[end - 1])
        invariant
            end <= chars.len(),
            chars@ == text@,
            trimmed_end(text@) == trimmed_end(text@.take(end as int)),
        decreases end,
    {
        assert(text@.take(end as int).drop_last() == text@.take(end - 1));
        end = end - 1;
    }
    assert(text@.subrange(0, end as int) == text@.take(end as int));
    part(text, 0, end)
}

/// A string without the white space around it.
pub(crate) fn trim(text: &str) -> (rest: String)
    ensures
        rest@ == trimmed(text@),
{
    let chars = characters(text);
    let mut start: usize = 0;
    assert(text@.skip(0) == text@);
    while start < chars.len() && white_space(chars[start])
        invariant
            start <= chars.len(),
            chars@ == text@,
            trimmed_start(text@) == trimmed_start(text@.skip(start as int)),
        decreases chars.len() - start,
    {
        assert(text@.skip(start as int).skip(1) == text@.skip(start + 1));
        start = start + 1;
    }
    assert(text@.subrange(start as int, text@.len() as int) == text@.skip(start as int));
    let tail = part(text, start, chars.len());
    trim_end(tail.as_str())
}

/// A string without every copy of `prefix` that it begins with.
pub(crate) fn strip_prefixes(text: &str, prefix: &str) -> (rest: String)
    requires
        prefix@.len() > 0,
    ensures
        rest@ == without_prefixes(text@, prefix@),
{
    let chars = characters(text);
    let mark = characters(prefix);
    let mut start: usize = 0;
    assert(text@.skip(0) == text@);
    while occurs(&chars, &mark, start)
        invariant
            start <= chars.len(),
            chars@ == text@,
            mark@ == prefix@,
            prefix@.len() > 0,
            without_prefixes(text@, prefix@) == without_prefixes(
                text@.skip(start as int),
                prefix@,
            ),
        decreases chars.len() - start,
    {
        let ghost rest = text@.skip(start as int);
        assert(rest.subrange(0, prefix@.len() as int) == text@.subrange(
            start as int,
            start + prefix@.len(),
        ));
        assert(rest.skip(prefix@.len() as int) == text@.skip(start + prefix@.len()));
        start = start + mark.len();
    }
    assert(!prefix@.is_prefix_of(text@.skip(start as int))) by {
        let rest = text@.skip(start as int);
        if prefix@.is_prefix_of(rest) {
            assert(rest.subrange(0, prefix@.len() as int) == text@.subrange(
                start as int,
                start + prefix@.len(),
            ));
        }
    }
    assert(text@.subrange(start as int, text@.len() as int) == text@.skip(start as int));
    part(text, start, chars.len())
}

/// The lines of a string.
pub(crate) fn split_lines(text: &str) -> (list: Vec<String>)
    ensures
        texts(list@) == lines(text@),
{
    let chars = characters(text);
    let mut list: Vec<String> = Vec::new();
    let mut start: usize = 0;
    assert(text@.skip(0) == text@);
    assert(texts(list@) + lines(text@) == lines(text@));
    while start < chars.len()
        invariant
            start <= chars.len(),
            chars@ == text@,
            texts(list@) + lines(text@.skip(start as int)) == lines(text@),
        decreases chars.len() - start,
    {
        let ghost rest = text@.skip(start as int);
        let ghost before = list@;
        let end = find_from(&chars, '\n', start);
        proof {
            lemma_position_of_tail(text@, '\n', start as int, 0);
        }
        let mut stop: usize = end;
        if end < chars.len() && end > start && chars[end - 1] == '\r' {
            stop = end - 1;
        }
        let line = part(text, start, stop);
        if end < chars.len() {
            assert(rest.take(end - start) == text@.subrange(start as int, end as int));
            assert(line@ == without_return(rest.take(end - start))) by {
                if end > start && text@[end - 1] == '\r' {
                    assert(rest.take(end - start).drop_last() == text@.subrange(
                        start as int,
                        end - 1,
                    ));
                }
            }
            assert(rest.skip(end - start + 1) == text@.skip(end + 1));
            list.push(line);
            start = end + 1;
            assert(texts(list@) == texts(before).push(line@));
            assert(texts(list@) + lines(text@.skip(start as int)) == texts(before) + (seq![line@]
                + lines(text@.skip(start as int))));
        } else {
            assert(text@.subrange(start as int, end as int) == rest);
            list.push(line);
            start = end;
            assert(texts(list@) == texts(before).push(line@));
            assert(text@.skip(start as int) == Seq::<char>::empty());
            assert(texts(list@) + lines(text@.skip(start as int)) == texts(before) + seq![line@]);
        }
    }
    assert(text@.skip(start as int) == Seq::<char>::empty());
    assert(texts(list@) + lines(text@.skip(start as int)) == texts(list@));
    list
}

/// Looking for a character in the rest of a text finds what looking from there
/// finds in the whole.
pub(crate) proof fn lemma_position_of_tail(text: Seq<char>, c: char, start: int, from: int)
    requires
        0 <= start <= text.len(),
        0 <= from <= text.len() - start,
    ensures
        position_from(text, c, start + from) == start + position_from(text.skip(start), c, from),
    decreases text.len() - start - from,
{
    if start + from < text.len() && text[start + from] != c {
        lemma_position_of_tail(text, c, start, from + 1);
    }
}

fn ascii_space(b: u8) -> (space: bool)
    ensures
        space == is_ascii_space(b),
{
    b == 9 || b == 10 || b == 12 || b == 13 || b == 32
}

/// Bytes without the ASCII white space around them.
pub(crate) fn trim_ascii(bytes: &Vec<u8>) -> (rest: Vec<u8>)
    ensures
        rest@ == ascii_trimmed(bytes@),
{
    let mut start: usize = 0;
    assert(bytes@.skip(0) == bytes@);
    while start < bytes.len() && ascii_space(bytes[start])
        invariant
            start <= bytes.len(),
            ascii_trimmed(bytes@) == ascii_trimmed(bytes@.skip(start as int)),
        decreases bytes.len() - start,
    {
        assert(bytes@.skip(start as int).skip(1) == bytes@.skip(start + 1));
        start = start + 1;
    }
    let mut rest: Vec<u8> = Vec::new();
    let mut i: usize = start;
    while i < bytes.len()
        invariant
            start <= i <= bytes.len(),
            rest@ == bytes@.subrange(start as int, i as int),
        decreases bytes.len() - i,
    {
        rest.push(bytes[i]);
        i = i + 1;
    }
    assert(bytes@.subrange(start as int, bytes@.len() as int) == bytes@.skip(start as int));
    while rest.len() > 0 && ascii_space(rest[rest.len() - 1])
        invariant
            ascii_trimmed_end(rest@) == ascii_trimmed_end(bytes@.skip(start as int)),
        decreases rest.len(),
    {
        let _ = rest.pop();
    }
    rest
}

/// A number in decimal digits.
pub(crate) fn decimal_digits(n: u64) -> (text: String)
    ensures
        text@ == decimal(n as nat),
    decreases n,
{
    let last = digit_text(n % 10);
    if n < 10 {
        last
    } else {
        let lead = decimal_digits(n / 10);
        let text = joined(lead.as_str(), last.as_str());
        assert(text@ == lead@.push(last@[0]));
        text
    }
}

fn digit_text(n: u64) -> (text: String)
    requires
        n < 10,
    ensures
        text@ == seq![digit(n as nat)],
{
    proof {
        reveal_strlit("0123456789");
    }
    let from: usize = n as usize;
    part("0123456789", from, from + 1)
}

/// What is found is the first occurrence at or after `from`; the length of the
/// text says that there is none.
pub proof fn lemma_position_is_the_first(text: Seq<char>, c: char, from: int)
    requires
        0 <= from <= text.len(),
    ensures
        from <= position_from(text, c, from) <= text.len(),
        position_from(text, c, from) < text.len() ==> text[position_from(text, c, from)] == c,
        forall|i: int| from <= i < position_from(text, c, from) ==> #[trigger] text[i] != c,
    decreases text.len() - from,
{
    if from < text.len() && text[from] != c {
        lemma_position_is_the_first(text, c, from + 1);
    }
}

/// A text holds another exactly if it is made of some lead, that text and some
/// rest.
pub proof fn lemma_text_is_held_between_others(text: Seq<char>, needle: Seq<char>)
    ensures
        has_text(text, needle) <==> exists|lead: Seq<char>, rest: Seq<char>|
            text == #[trigger] (lead + needle + rest),
{
    if has_text(text, needle) {
        let i = choose|i: int| #[trigger] occurs_at(text, needle, i);
        let lead = text.take(i);
        let rest = text.skip(i + needle.len());
        assert(text =~= lead + text.subrange(i, i + needle.len()) + rest);
        assert(text == lead + needle + rest);
    }
    if exists|lead: Seq<char>, rest: Seq<char>| text == #[trigger] (lead + needle + rest) {
        let (lead, rest) = choose|lead: Seq<char>, rest: Seq<char>|
            text == #[trigger] (lead + needle + rest);
        let i = lead.len() as int;
        assert(text.subrange(i, i + needle.len()) =~= needle);
        assert(occurs_at(text, needle, i));
    }
}

/// White space is what Unicode counts as such: the controls from tab to carriage
/// return, the space and its wider and narrower kin, next line, no-break spaces,
/// and the separators of lines and paragraphs.
pub proof fn lemma_white_space_is_that_of_unicode(c: char)
    ensures
        is_white_space(c) <==> {
            let n = c as int;
            ||| n == 9 || n == 10 || n == 11 || n == 12 || n == 13 || n == 32
            ||| n == 133 || n == 160 || n == 5760
            ||| 8192 <= n <= 8202
            ||| n == 8232 || n == 8233 || n == 8239 || n == 8287 || n == 12288
        },
{
}

/// Trimming the end takes off white space only, and all of it.
pub proof fn lemma_trimming_the_end_takes_white_space(text: Seq<char>)
    ensures
        trimmed_end(text).is_prefix_of(text),
        forall|i: int|
            trimmed_end(text).len() <= i < text.len() ==> is_white_space(#[trigger] text[i]),
        trimmed_end(text).len() > 0 ==> !is_white_space(trimmed_end(text).last()),
    decreases text.len(),
{
    if text.len() > 0 && is_white_space(text.last()) {
        let init = text.drop_last();
        lemma_trimming_the_end_takes_white_space(init);
        let kept = trimmed_end(init);
        assert(kept == init.subrange(0, kept.len() as int));
        assert(kept =~= text.subrange(0, kept.len() as int));
        assert forall|i: int| kept.len() <= i < text.len() implies is_white_space(
            #[trigger] text[i],
        ) by {
            if i < init.len() {
                assert(init[i] == text[i]);
            }
        }
    } else {
        assert(text.subrange(0, text.len() as int) =~= text);
    }
}

/// Trimming the start takes off white space only, and all of it.
pub proof fn lemma_trimming_the_start_takes_white_space(text: Seq<char>)
    ensures
        trimmed_start(text).len() <= text.len(),
        trimmed_start(text) == text.skip(text.len() - trimmed_start(text).len()),
        forall|i: int|
            0 <= i < text.len() - trimmed_start(text).len() ==> is_white_space(#[trigger] text[i]),
        trimmed_start(text).len() > 0 ==> !is_white_space(trimmed_start(text)[0]),
    decreases text.len(),
{
    if text.len() > 0 && is_white_space(text[0]) {
        let rest = text.skip(1);
        lemma_trimming_the_start_takes_white_space(rest);
        let kept = trimmed_start(rest);
        assert(text.skip(text.len() - kept.len()) =~= rest.skip(rest.len() - kept.len()));
        assert forall|i: int| 0 <= i < text.len() - kept.len() implies is_white_space(
            #[trigger] text[i],
        ) by {
            if i > 0 {
                assert(rest[i - 1] == text[i]);
            }
        }
    } else {
        assert(text.skip(0) =~= text);
    }
}

/// A trimmed text is what stands between the white space at both ends: it is put
/// back by it, and neither begins nor ends with any.
pub proof fn lemma_trimming_takes_white_space(text: Seq<char>) -> (from: int)
    ensures
        0 <= from <= from + trimmed(text).len() <= text.len(),
        trimmed(text) == text.subrange(from, from + trimmed(text).len()),
        forall|i: int| 0 <= i < from ==> is_white_space(#[trigger] text[i]),
        forall|i: int|
            from + trimmed(text).len() <= i < text.len() ==> is_white_space(#[trigger] text[i]),
        trimmed(text).len() > 0 ==> !is_white_space(trimmed(text)[0]) && !is_white_space(
            trimmed(text).last(),
        ),
{
    let tail = trimmed_start(text);
    let kept = trimmed_end(tail);
    let from = text.len() - tail.len();
    lemma_trimming_the_start_takes_white_space(text);
    lemma_trimming_the_end_takes_white_space(tail);
    assert(kept == tail.subrange(0, kept.len() as int));
    assert(kept =~= text.subrange(from, from + kept.len()));
    assert forall|i: int| from + kept.len() <= i < text.len() implies is_white_space(
        #[trigger] text[i],
    ) by {
        assert(tail[i - from] == text[i]);
    }
    if kept.len() > 0 {
        assert(kept[0] == tail[0]);
    }
    from
}

/// A prefix is taken off as often as it stands at the start, and nothing else is.
pub proof fn lemma_prefixes_are_taken_off(text: Seq<char>, prefix: Seq<char>)
    requires
        prefix.len() > 0,
    ensures
        !prefix.is_prefix_of(text) ==> without_prefixes(text, prefix) == text,
        without_prefixes(prefix + text, prefix) == without_prefixes(text, prefix),
        !prefix.is_prefix_of(without_prefixes(text, prefix)),
    decreases text.len(),
{
    let longer = prefix + text;
    assert(longer.subrange(0, prefix.len() as int) =~= prefix);
    assert(longer.skip(prefix.len() as int) =~= text);
    if prefix.is_prefix_of(text) {
        lemma_prefixes_are_taken_off(text.skip(prefix.len() as int), prefix);
    }
}

/// Text is cut into lines at every line feed. A carriage return before the line
/// feed belongs to the end of the line; anywhere else it is kept. A last line
/// needs no line feed.
pub proof fn lemma_text_is_cut_at_line_feeds(line: Seq<char>, rest: Seq<char>)
    requires
        !line.contains('\n'),
    ensures
        lines(Seq::<char>::empty()) == Seq::<Seq<char>>::empty(),
        line.len() > 0 ==> lines(line) == seq![line],
        lines(line + seq!['\r', '\n'] + rest) == seq![line] + lines(rest),
        line.len() == 0 || line.last() != '\r' ==> lines(line + seq!['\n'] + rest) == seq![line]
            + lines(rest),
{
    let n = line.len() as int;
    assert forall|i: int| 0 <= i < n implies line[i] != '\n' by {
        assert(line.contains(line[i]));
    }
    let p = position_from(line, '\n', 0);
    lemma_position_is_the_first(line, '\n', 0);
    assert(p == n);
    let plain = line + seq!['\n'] + rest;
    let q = position_from(plain, '\n', 0);
    lemma_position_is_the_first(plain, '\n', 0);
    assert(plain[n] == '\n');
    if q < n {
        assert(plain[q] == line[q]);
    }
    assert(q == n);
    assert(plain.take(n) =~= line);
    assert(plain.skip(n + 1) =~= rest);
    let both = line + seq!['\r', '\n'] + rest;
    let r = position_from(both, '\n', 0);
    lemma_position_is_the_first(both, '\n', 0);
    assert(both[n] == '\r' && both[n + 1] == '\n');
    if r < n {
        assert(both[r] == line[r]);
    }
    assert(r == n + 1);
    assert(both.take(n + 1) =~= line.push('\r'));
    assert(line.push('\r').drop_last() =~= line);
    assert(both.skip(n + 2) =~= rest);
}

/// Trimmed bytes are what stands between the tabs, line feeds, form feeds,
/// carriage returns and spaces at both ends.
pub proof fn lemma_trimming_bytes_takes_spaces(bytes: Seq<u8>) -> (from: int)
    ensures
        0 <= from <= from + ascii_trimmed(bytes).len() <= bytes.len(),
        ascii_trimmed(bytes) == bytes.subrange(from, from + ascii_trimmed(bytes).len()),
        forall|i: int|
            0 <= i < from || from + ascii_trimmed(bytes).len() <= i < bytes.len() ==> {
                let b = #[trigger] bytes[i];
                b == 9 || b == 10 || b == 12 || b == 13 || b == 32
            },
        ascii_trimmed(bytes).len() > 0 ==> {
            let b = ascii_trimmed(bytes)[0];
            let c = ascii_trimmed(bytes).last();
            &&& b != 9 && b != 10 && b != 12 && b != 13 && b != 32
            &&& c != 9 && c != 10 && c != 12 && c != 13 && c != 32
        },
    decreases bytes.len(),
{
    let kept = ascii_trimmed(bytes);
    if bytes.len() > 0 && is_ascii_space(bytes[0]) {
        let rest = bytes.skip(1);
        let from = lemma_trimming_bytes_takes_spaces(rest);
        assert(rest.subrange(from, from + kept.len()) =~= bytes.subrange(
            from + 1,
            from + 1 + kept.len(),
        ));
        assert forall|i: int|
            0 <= i < from + 1 || from + 1 + kept.len() <= i < bytes.len() implies {
            let b = #[trigger] bytes[i];
            b == 9 || b == 10 || b == 12 || b == 13 || b == 32
        } by {
            if i > 0 {
                assert(rest[i - 1] == bytes[i]);
            }
        }
        from + 1
    } else {
        lemma_trimming_the_end_of_bytes(bytes);
        0
    }
}

proof fn lemma_trimming_the_end_of_bytes(bytes: Seq<u8>)
    ensures
        ascii_trimmed_end(bytes).len() <= bytes.len(),
        ascii_trimmed_end(bytes) == bytes.subrange(0, ascii_trimmed_end(bytes).len() as int),
        forall|i: int|
            ascii_trimmed_end(bytes).len() <= i < bytes.len() ==> is_ascii_space(
                #[trigger] bytes[i],
            ),
        ascii_trimmed_end(bytes).len() > 0 ==> !is_ascii_space(ascii_trimmed_end(bytes).last()),
    decreases bytes.len(),
{
    if bytes.len() > 0 && is_ascii_space(bytes.last()) {
        let init = bytes.drop_last();
        lemma_trimming_the_end_of_bytes(init);
        let kept = ascii_trimmed_end(init);
        assert(init.subrange(0, kept.len() as int) =~= bytes.subrange(0, kept.len() as int));
        assert forall|i: int| kept.len() <= i < bytes.len() implies is_ascii_space(
            #[trigger] bytes[i],
        ) by {
            if i < init.len() {
                assert(init[i] == bytes[i]);
            }
        }
    } else {
        assert(bytes.subrange(0, bytes.len() as int) =~= bytes);
    }
}

/// The number that decimal digits stand for.
pub open spec fn number(digits: Seq<char>) -> int
    decreases digits.len(),
{
    if digits.len() == 0 {
        0
    } else {
        10 * number(digits.drop_last()) + (digits.last() as int - '0' as int)
    }
}

/// A number is written in digits that stand for it, without a leading zero.
pub proof fn lemma_decimal_stands_for_its_number(n: nat)
    ensures
        number(decimal(n)) == n,
        decimal(n).len() > 0,
        forall|i: int| 0 <= i < decimal(n).len() ==> '0' <= #[trigger] decimal(n)[i] <= '9',
        n > 0 ==> decimal(n)[0] != '0',
        n == 0 ==> decimal(n) == seq!['0'],
    decreases n,
{
    if n >= 10 {
        lemma_decimal_stands_for_its_number(n / 10);
        assert(decimal(n).drop_last() =~= decimal(n / 10));
    } else {
        assert(decimal(n).drop_last() =~= Seq::<char>::empty());
        assert(number(Seq::<char>::empty()) == 0);
    }
}

/// The contents of a list of strings are those of its strings, in their order.
pub proof fn lemma_texts_are_those_of_the_strings(list: Seq<String>, text: Option<String>)
    ensures
        texts(list).len() == list.len(),
        forall|i: int| 0 <= i < list.len() ==> #[trigger] texts(list)[i] == list[i]@,
        text is Some <==> optional_text(text) is Some,
        text matches Some(t) ==> optional_text(text) == Some(t@),
{
}

} // verus!
