//! Webhooks: the requests that follow a deployment.

use vstd::prelude::*;
use vstd::utf8::encode_utf8;

use crate::config::{WebhookConfig, WebhooksConfig};
use crate::deploy::{Deployed, DeployedView};
use crate::text::{
    characters, find_from, joined, lemma_position_is_the_first, optional_text, part,
    position_from, same_text, texts, trim,
    trimmed, trimmed_start,
};

verus! {

/// Environment variables: names and values.
#[derive(Debug)]
pub struct Variables {
    pub entries: Vec<(String, String)>,
}

impl View for Variables {
    type V = Seq<(Seq<char>, Seq<char>)>;

    open spec fn view(&self) -> Seq<(Seq<char>, Seq<char>)> {
        self.entries@.map_values(|entry: (String, String)| (entry.0@, entry.1@))
    }
}

/// The value of a variable: that of its first entry, if it has one.
pub open spec fn value_of(variables: Seq<(Seq<char>, Seq<char>)>, name: Seq<char>) -> Option<
    Seq<char>,
>
    decreases variables.len(),
{
    if variables.len() == 0 {
        None
    } else if variables[0].0 == name {
        Some(variables[0].1)
    } else {
        value_of(variables.skip(1), name)
    }
}

impl Variables {
    /// The value of a variable, if it is set.
    pub fn get(&self, name: &str) -> (value: Option<&String>)
        ensures
            match value {
                Some(v) => value_of(self@, name@) == Some(v@),
                None => value_of(self@, name@) is None,
            },
    {
        let mut i: usize = 0;
        assert(self@.skip(0) == self@);
        while i < self.entries.len()
            invariant
                i <= self.entries.len(),
                value_of(self@, name@) == value_of(self@.skip(i as int), name@),
            decreases self.entries.len() - i,
        {
            assert(self@.skip(i as int)[0] == (
                self.entries@[i as int].0@,
                self.entries@[i as int].1@,
            ));
            if same_text(self.entries[i].0.as_str(), name) {
                return Some(&self.entries[i].1);
            }
            assert(self@.skip(i as int).skip(1) == self@.skip(i + 1));
            i = i + 1;
        }
        None
    }
}

/// A letter of an environment variable's name.
pub open spec fn is_name_letter(c: char) -> bool {
    'A' <= c <= 'Z' || '0' <= c <= '9' || c == '_'
}

/// An upper-case letter, and after it upper-case letters, digits and
/// underscores.
pub open spec fn is_variable_name(name: Seq<char>) -> bool {
    &&& name.len() > 0
    &&& 'A' <= name[0] <= 'Z'
    &&& forall|i: int| 0 <= i < name.len() ==> is_name_letter(#[trigger] name[i])
}

/// A text in front of an expansion; an expansion that failed still fails.
pub open spec fn before(
    lead: Seq<char>,
    rest: Result<Seq<char>, Seq<char>>,
) -> Result<Seq<char>, Seq<char>> {
    match rest {
        Ok(text) => Ok(lead + text),
        Err(name) => Err(name),
    }
}

/// `text` with every placeholder `<NAME>` replaced by the value of that
/// variable, or the name of the first placeholder whose variable is not set.
/// Everything else, other angle brackets too, stays as it is.
pub open spec fn expansion(
    text: Seq<char>,
    variables: Seq<(Seq<char>, Seq<char>)>,
) -> Result<Seq<char>, Seq<char>>
    decreases text.len(),
{
    let end = position_from(text, '>', 1);
    if text.len() == 0 {
        Ok(Seq::empty())
    } else if text[0] == '<' && 1 <= end < text.len() && is_variable_name(text.subrange(1, end)) {
        match value_of(variables, text.subrange(1, end)) {
            Some(value) => before(value, expansion(text.skip(end + 1), variables)),
            None => Err(text.subrange(1, end)),
        }
    } else {
        before(text.take(1), expansion(text.skip(1), variables))
    }
}

/// Why `reqwest` refuses a request.
#[verifier::external_type_specification]
#[verifier::external_body]
pub struct ExRequestError(reqwest::Error);

/// A request that `reqwest` can send.
#[verifier::external_type_specification]
#[verifier::external_body]
pub struct ExRequest(reqwest::Request);

/// What sends requests.
#[verifier::external_type_specification]
#[verifier::external_body]
pub struct ExClient(reqwest::Client);

/// The value of a header.
#[verifier::external_type_specification]
#[verifier::external_body]
pub struct ExHeaderValue(reqwest::header::HeaderValue);

/// The headers of a request.
#[verifier::external_type_specification]
#[verifier::external_body]
#[verifier::reject_recursive_types(T)]
pub struct ExHeaderMap<T>(reqwest::header::HeaderMap<T>);

/// Why a webhook cannot be set up.
#[derive(Debug)]
pub enum WebhookError {
    /// A placeholder names a variable that is not set.
    MissingVariable { name: String },
    /// A header line has no colon.
    MissingColon { header: String },
    /// The method is no HTTP method.
    InvalidMethod,
    /// The name of a header is not one.
    InvalidHeaderName,
    /// The value of a header is not one.
    InvalidHeaderValue,
    /// The URL cannot be sent a request to.
    InvalidUrl { cause: reqwest::Error },
    /// The request cannot be sent a second time.
    NotCloneable,
}

/// Whether a name can be that of an environment variable.
fn variable_name(text: &Vec<char>, from: usize, to: usize) -> (ok: bool)
    requires
        from <= to <= text@.len(),
    ensures
        ok == is_variable_name(text@.subrange(from as int, to as int)),
{
    let ghost name = text@.subrange(from as int, to as int);
    if from == to || !('A' <= text[from] && text[from] <= 'Z') {
        assert(from < to ==> name[0] == text@[from as int]);
        return false;
    }
    let mut i: usize = from;
    while i < to
        invariant
            from <= i <= to <= text@.len(),
            name == text@.subrange(from as int, to as int),
            forall|j: int| 0 <= j < i - from ==> is_name_letter(#[trigger] name[j]),
        decreases to - i,
    {
        let c = text[i];
        assert(name[i - from] == c);
        if !(('A' <= c && c <= 'Z') || ('0' <= c && c <= '9') || c == '_') {
            assert(!is_name_letter(name[i - from]));
            return false;
        }
        i = i + 1;
    }
    assert(name[0] == text@[from as int]);
    true
}

/// Up to the first `<`, an expansion is the text itself.
proof fn lemma_plain_lead(
    text: Seq<char>,
    variables: Seq<(Seq<char>, Seq<char>)>,
    from: int,
    to: int,
)
    requires
        0 <= from <= to <= text.len(),
        forall|i: int| from <= i < to ==> text[i] != '<',
    ensures
        expansion(text.skip(from), variables) == before(
            text.subrange(from, to),
            expansion(text.skip(to), variables),
        ),
    decreases to - from,
{
    let rest = expansion(text.skip(to), variables);
    if from == to {
        assert(text.subrange(from, to) == Seq::<char>::empty());
        if let Ok(t) = rest {
            assert(Seq::<char>::empty() + t == t);
        }
    } else {
        lemma_plain_lead(text, variables, from + 1, to);
        assert(text.skip(from).skip(1) == text.skip(from + 1));
        assert(text.skip(from).take(1) + text.subrange(from + 1, to) == text.subrange(from, to));
        if let Ok(t) = rest {
            assert(text.skip(from).take(1) + (text.subrange(from + 1, to) + t) == text.subrange(
                from,
                to,
            ) + t);
        }
    }
}

/// No `<` stands before the position where the first one is found.
proof fn lemma_nothing_before_position(text: Seq<char>, c: char, from: int)
    requires
        0 <= from <= text.len(),
    ensures
        from <= position_from(text, c, from) <= text.len(),
        forall|i: int| from <= i < position_from(text, c, from) ==> text[i] != c,
    decreases text.len() - from,
{
    if from < text.len() && text[from] != c {
        lemma_nothing_before_position(text, c, from + 1);
    }
}

/// Replaces every `<VAR_NAME>` placeholder with the value of that variable.
/// A name is made of upper-case letters, digits and underscores, and starts
/// with a letter. Angle brackets that hold no such name are left unchanged.
pub fn expand_env_vars(s: &str, variables: &Variables) -> (expanded: Result<String, WebhookError>)
    ensures
        match expanded {
            Ok(text) => expansion(s@, variables@) == Ok::<Seq<char>, Seq<char>>(text@),
            Err(WebhookError::MissingVariable { name }) => expansion(s@, variables@)
                == Err::<Seq<char>, Seq<char>>(name@),
            Err(_) => false,
        },
{
    let chars = characters(s);
    let mut result: String = String::new();
    let mut at: usize = 0;
    let ghost whole = expansion(s@, variables@);
    assert(s@.skip(0) == s@);
    assert(whole == before(result@, whole)) by {
        if let Ok(t) = whole {
            assert(Seq::<char>::empty() + t == t);
        }
    }
    loop
        invariant
            at <= chars@.len(),
            chars@ == s@,
            whole == expansion(s@, variables@),
            whole == before(result@, expansion(s@.skip(at as int), variables@)),
        decreases chars@.len() - at,
    {
        let start = find_from(&chars, '<', at);
        let ghost lead = s@.subrange(at as int, start as int);
        let ghost so_far = result@;
        proof {
            lemma_nothing_before_position(s@, '<', at as int);
            lemma_plain_lead(s@, variables@, at as int, start as int);
            lemma_before_twice(so_far, lead, expansion(s@.skip(start as int), variables@));
        }
        result.append(part(s, at, start).as_str());
        if start >= chars.len() {
            assert(s@.skip(start as int) == Seq::<char>::empty());
            assert(result@ + Seq::<char>::empty() == result@);
            return Ok(result);
        }
        let ghost rest = s@.skip(start as int);
        let end = find_from(&chars, '>', start + 1);
        proof {
            crate::text::lemma_position_of_tail(s@, '>', start as int, 1);
        }
        let ghost after = so_far + lead;
        assert(result@ == after);
        if end < chars.len() {
            assert(rest.subrange(1, end - start) == s@.subrange(start + 1, end as int));
            if variable_name(&chars, start + 1, end) {
                let name = part(s, start + 1, end);
                match variables.get(name.as_str()) {
                    Some(value) => {
                        assert(rest.skip(end - start + 1) == s@.skip(end + 1));
                        proof {
                            lemma_before_twice(
                                after,
                                value@,
                                expansion(s@.skip(end + 1), variables@),
                            );
                        }
                        result.append(value.as_str());
                        at = end + 1;
                    },
                    None => {
                        return Err(WebhookError::MissingVariable { name });
                    },
                }
                continue ;
            }
        }
        assert(rest.skip(1) == s@.skip(start + 1));
        proof {
            reveal_strlit("<");
            assert(rest.take(1) == "<"@);
            lemma_before_twice(after, "<"@, expansion(s@.skip(start + 1), variables@));
        }
        result.append("<");
        at = start + 1;
    }
}

/// Putting two texts in front of an expansion is putting both at once.
proof fn lemma_before_twice(
    first: Seq<char>,
    second: Seq<char>,
    rest: Result<Seq<char>, Seq<char>>,
)
    ensures
        before(first, before(second, rest)) == before(first + second, rest),
{
    if let Ok(text) = rest {
        assert(first + (second + text) == (first + second) + text);
    }
}

/// A placeholder begins at position `i`.
pub open spec fn placeholder_at(text: Seq<char>, i: int) -> bool {
    let end = position_from(text, '>', i + 1);
    &&& 0 <= i < text.len()
    &&& text[i] == '<'
    &&& end < text.len()
    &&& is_variable_name(text.subrange(i + 1, end))
}

/// A text without placeholders is left unchanged, whatever angle brackets it
/// holds and whatever variables are set.
pub proof fn lemma_other_brackets_are_kept(
    text: Seq<char>,
    variables: Seq<(Seq<char>, Seq<char>)>,
)
    requires
        forall|i: int| !#[trigger] placeholder_at(text, i),
    ensures
        expansion(text, variables) == Ok::<Seq<char>, Seq<char>>(text),
    decreases text.len(),
{
    if text.len() > 0 {
        let rest = text.skip(1);
        assert forall|i: int| !#[trigger] placeholder_at(rest, i) by {
            if placeholder_at(rest, i) {
                crate::text::lemma_position_of_tail(text, '>', 1, i + 1);
                lemma_nothing_before_position(rest, '>', i + 1);
                let end = position_from(rest, '>', i + 1);
                assert(rest.subrange(i + 1, end) == text.subrange(i + 2, end + 1));
                assert(placeholder_at(text, i + 1));
            }
        }
        lemma_other_brackets_are_kept(rest, variables);
        lemma_nothing_before_position(text, '>', 1);
        assert(!placeholder_at(text, 0));
        assert(text.take(1) + rest == text);
    } else {
        assert(text == Seq::<char>::empty());
    }
}

/// One expansion after another; the first that failed counts.
pub open spec fn followed_by(
    first: Result<Seq<char>, Seq<char>>,
    second: Result<Seq<char>, Seq<char>>,
) -> Result<Seq<char>, Seq<char>> {
    match first {
        Ok(text) => before(text, second),
        Err(name) => Err(name),
    }
}

/// A placeholder is replaced by the value of its variable, which is not
/// expanded in turn; what stands before it and what follows it are expanded by
/// themselves.
pub proof fn lemma_placeholder_is_replaced(
    lead: Seq<char>,
    name: Seq<char>,
    rest: Seq<char>,
    variables: Seq<(Seq<char>, Seq<char>)>,
)
    requires
        is_variable_name(name),
    ensures
        expansion(lead + (seq!['<'] + name + seq!['>'] + rest), variables) == followed_by(
            expansion(lead, variables),
            match value_of(variables, name) {
                Some(value) => before(value, expansion(rest, variables)),
                None => Err(name),
            },
        ),
{
    let tail = seq!['<'] + name + seq!['>'] + rest;
    lemma_expansion_splits_at_a_bracket(lead, tail, variables);
    let close = 1 + name.len() as int;
    assert forall|i: int| 1 <= i < close implies tail[i] != '>' by {
        assert(tail[i] == name[i - 1]);
        assert(is_name_letter(name[i - 1]));
    }
    lemma_position_is_first(tail, '>', 1, close);
    assert(tail.subrange(1, close) == name);
    assert(tail.skip(close + 1) == rest);
}

/// What stands before a `<` is expanded by itself: no placeholder reaches over
/// a bracket.
proof fn lemma_expansion_splits_at_a_bracket(
    lead: Seq<char>,
    tail: Seq<char>,
    variables: Seq<(Seq<char>, Seq<char>)>,
)
    requires
        tail.len() > 0,
        tail[0] == '<',
    ensures
        expansion(lead + tail, variables) == followed_by(
            expansion(lead, variables),
            expansion(tail, variables),
        ),
    decreases lead.len(),
{
    let text = lead + tail;
    let rest = expansion(tail, variables);
    if lead.len() == 0 {
        assert(text == tail);
        if let Ok(t) = rest {
            assert(Seq::<char>::empty() + t == t);
        }
    } else {
        let end = position_from(lead, '>', 1);
        lemma_nothing_before_position(lead, '>', 1);
        lemma_nothing_before_position(text, '>', 1);
        if end < lead.len() {
            lemma_position_is_found(lead, '>', 1);
            lemma_position_is_first(text, '>', 1, end);
            assert(text.subrange(1, end) == lead.subrange(1, end));
        } else {
            let beyond = position_from(text, '>', 1);
            lemma_position_is_found(text, '>', 1);
            assert forall|i: int| 1 <= i <= lead.len() implies text[i] != '>' by {
                if i < lead.len() {
                    assert(text[i] == lead[i]);
                }
            }
            if beyond < text.len() {
                assert(text.subrange(1, beyond)[lead.len() - 1] == '<');
                assert(!is_name_letter('<'));
                assert(!is_variable_name(text.subrange(1, beyond)));
            }
        }
        let replaced = lead[0] == '<' && end < lead.len() && is_variable_name(
            lead.subrange(1, end),
        );
        let from = if replaced {
            end + 1
        } else {
            1
        };
        assert(text.skip(from) == lead.skip(from) + tail);
        lemma_expansion_splits_at_a_bracket(lead.skip(from), tail, variables);
        assert(text.take(1) == lead.take(1));
        let inner = expansion(lead.skip(from), variables);
        if let Ok(t) = inner {
            if replaced {
                if let Some(value) = value_of(variables, lead.subrange(1, end)) {
                    lemma_before_twice(value, t, rest);
                }
            } else {
                lemma_before_twice(lead.take(1), t, rest);
            }
        }
    }
}

proof fn lemma_position_is_found(text: Seq<char>, c: char, from: int)
    requires
        0 <= from <= text.len(),
    ensures
        position_from(text, c, from) < text.len() ==> text[position_from(text, c, from)] == c,
    decreases text.len() - from,
{
    if from < text.len() && text[from] != c {
        lemma_position_is_found(text, c, from + 1);
    }
}

proof fn lemma_position_is_first(text: Seq<char>, c: char, from: int, at: int)
    requires
        0 <= from <= at < text.len(),
        text[at] == c,
        forall|i: int| from <= i < at ==> text[i] != c,
    ensures
        position_from(text, c, from) == at,
    decreases at - from,
{
    if from < at {
        lemma_position_is_first(text, c, from + 1, at);
    }
}

/// An expansion fails only for a placeholder of the text whose variable is not
/// set, and names that variable.
pub proof fn lemma_failed_expansion_names_a_placeholder(
    text: Seq<char>,
    variables: Seq<(Seq<char>, Seq<char>)>,
)
    ensures
        expansion(text, variables) matches Err(name) ==> value_of(variables, name) is None
            && exists|i: int| #[trigger]
            placeholder_at(text, i) && text.subrange(i + 1, position_from(text, '>', i + 1))
                == name,
    decreases text.len(),
{
    if text.len() > 0 {
        let end = position_from(text, '>', 1);
        lemma_nothing_before_position(text, '>', 1);
        let replaced = text[0] == '<' && 1 <= end < text.len() && is_variable_name(
            text.subrange(1, end),
        );
        let from = if replaced {
            end + 1
        } else {
            1
        };
        if replaced && value_of(variables, text.subrange(1, end)) is None {
            assert(placeholder_at(text, 0));
        } else {
            let rest = text.skip(from);
            lemma_failed_expansion_names_a_placeholder(rest, variables);
            if let Err(name) = expansion(rest, variables) {
                let i = choose|i: int| #[trigger]
                    placeholder_at(rest, i) && rest.subrange(
                        i + 1,
                        position_from(rest, '>', i + 1),
                    ) == name;
                crate::text::lemma_position_of_tail(text, '>', from, i + 1);
                lemma_nothing_before_position(rest, '>', i + 1);
                let close = position_from(rest, '>', i + 1);
                assert(rest.subrange(i + 1, close) == text.subrange(from + i + 1, from + close));
                assert(placeholder_at(text, from + i));
            }
        }
    }
}

/// The key and the value of a header line, if it has a colon.
pub open spec fn header_parts(line: Seq<char>) -> Option<(Seq<char>, Seq<char>)> {
    let colon = position_from(line, ':', 0);
    if colon < line.len() {
        Some((trimmed(line.take(colon)), trimmed(line.skip(colon + 1))))
    } else {
        None
    }
}

/// Parses a `Key: Value` header line, splitting at the first colon.
pub fn parse_header(s: &str) -> (parsed: Result<(String, String), WebhookError>)
    ensures
        match parsed {
            Ok((key, value)) => header_parts(s@) == Some((key@, value@)),
            Err(WebhookError::MissingColon { header }) => header_parts(s@) is None && header@
                == s@,
            Err(_) => false,
        },
{
    let chars = characters(s);
    let colon = find_from(&chars, ':', 0);
    if colon >= chars.len() {
        return Err(WebhookError::MissingColon { header: s.to_owned() });
    }
    let key = trim(part(s, 0, colon).as_str());
    let value = trim(part(s, colon + 1, chars.len()).as_str());
    assert(s@.subrange(0, colon as int) == s@.take(colon as int));
    assert(s@.subrange(colon + 1, s@.len() as int) == s@.skip(colon + 1));
    Ok((key, value))
}

/// A key without colons and a value, both without white space around them, are
/// read back from the line that joins them with a colon, whatever colons the
/// value holds.
pub proof fn lemma_header_line_is_read_back(key: Seq<char>, value: Seq<char>)
    requires
        !key.contains(':'),
        trimmed(key) == key,
        trimmed(value) == value,
    ensures
        header_parts(key + seq![':'] + value) == Some((key, value)),
        header_parts(key + seq![':', ' '] + value) == Some((key, value)),
{
    let tight = key + seq![':'] + value;
    let loose = key + seq![':', ' '] + value;
    let colon = key.len() as int;
    assert forall|i: int| 0 <= i < colon implies tight[i] != ':' && loose[i] != ':' by {
        assert(tight[i] == key[i] && loose[i] == key[i]);
        assert(key.contains(key[i]));
    }
    lemma_position_is_first(tight, ':', 0, colon);
    lemma_position_is_first(loose, ':', 0, colon);
    assert(tight.take(colon) == key);
    assert(loose.take(colon) == key);
    assert(tight.skip(colon + 1) == value);
    let spaced = loose.skip(colon + 1);
    assert(spaced.skip(1) == value);
    assert(trimmed_start(spaced) == trimmed_start(value));
}

/// The characters of an HTTP token.
pub open spec fn is_token_char(c: char) -> bool {
    ||| 'a' <= c <= 'z'
    ||| 'A' <= c <= 'Z'
    ||| '0' <= c <= '9'
    ||| c == '!'
    ||| '#' <= c <= '\''
    ||| c == '*'
    ||| c == '+'
    ||| c == '-'
    ||| c == '.'
    ||| '^' <= c <= '`'
    ||| c == '|'
    ||| c == '~'
}

/// A text made of token characters, of which there is at least one.
pub open spec fn is_token(text: Seq<char>) -> bool {
    text.len() > 0 && forall|i: int| 0 <= i < text.len() ==> is_token_char(#[trigger] text[i])
}

/// A token of a length that a header's name can have.
pub open spec fn is_header_name(text: Seq<char>) -> bool {
    is_token(text) && text.len() <= 65535
}

/// A text without control characters of ASCII other than tabs.
pub open spec fn is_header_value(text: Seq<char>) -> bool {
    forall|i: int|
        0 <= i < text.len() ==> (#[trigger] text[i] >= ' ' && text[i] != '\u{7f}') || text[i]
            == '\t'
}

/// A letter of ASCII in lower case; any other character is kept.
pub open spec fn lower_letter(c: char) -> char {
    if 'A' <= c <= 'Z' {
        ((c as u32 + 32) as u32) as char
    } else {
        c
    }
}

/// A text with the letters of ASCII in lower case.
pub open spec fn lower_case(text: Seq<char>) -> Seq<char> {
    text.map_values(|c: char| lower_letter(c))
}

/// What a set of headers holds: under each name, in lower case, its values as
/// bytes.
pub uninterp spec fn header_entries(headers: reqwest::header::HeaderMap) -> Map<
    Seq<char>,
    Seq<Seq<u8>>,
>;

/// Where a request to a URL goes: the URL that is sent to and the credentials
/// that it held, as the value of an `authorization` header; nothing where no
/// request can be made to it.
pub uninterp spec fn request_target(url: Seq<char>) -> Option<(Seq<char>, Option<Seq<u8>>)>;

/// Calls `http`'s `Method::from_bytes`: it accepts exactly the HTTP tokens.
#[verifier::external_body]
fn accepts_method(text: &str) -> (ok: bool)
    ensures
        ok == is_token(text@),
{
    reqwest::Method::from_bytes(text.as_bytes()).is_ok()
}

/// Calls `http`'s `HeaderName::from_str`: it accepts exactly the HTTP tokens of
/// at most 65535 characters.
#[verifier::external_body]
fn accepts_header_name(text: &str) -> (ok: bool)
    ensures
        ok == is_header_name(text@),
{
    text.parse::<reqwest::header::HeaderName>().is_ok()
}

/// Calls `http`'s `HeaderValue::from_str`: it accepts exactly the texts without
/// control characters of ASCII other than tabs.
#[verifier::external_body]
fn accepts_header_value(text: &str) -> (ok: bool)
    ensures
        ok == is_header_value(text@),
{
    reqwest::header::HeaderValue::from_str(text).is_ok()
}

/// Calls `http`'s `HeaderMap::new`: it holds nothing.
#[verifier::external_body]
fn no_headers() -> (headers: reqwest::header::HeaderMap)
    ensures
        header_entries(headers).dom() == Set::<Seq<char>>::empty(),
{
    reqwest::header::HeaderMap::new()
}

/// Calls `http`'s `HeaderMap::insert`: the name, in lower case, then holds this
/// value alone, and other names are as before. A map that holds at most 6553
/// names always has room for one more.
#[verifier::external_body]
fn insert_header(headers: &mut reqwest::header::HeaderMap, name: &str, value: &str)
    requires
        is_header_name(name@),
        is_header_value(value@),
        header_entries(*old(headers)).dom().finite(),
        header_entries(*old(headers)).dom().len() <= 6553,
    ensures
        header_entries(*final(headers)) == header_entries(*old(headers)).insert(
            lower_case(name@),
            seq![encode_utf8(value@)],
        ),
{
    let name: reqwest::header::HeaderName = name.parse().unwrap();
    let value = reqwest::header::HeaderValue::from_str(value).unwrap();
    headers.insert(name, value);
}

/// The body of a request.
pub enum BodyView {
    /// There is none.
    Absent,
    /// It is held in memory.
    Bytes { bytes: Seq<u8> },
    /// It is read from elsewhere while it is sent.
    Stream,
}

/// The parts of a request.
#[verifier::ext_equal]
pub struct RequestView {
    pub method: Seq<char>,
    pub url: Seq<char>,
    pub headers: Map<Seq<char>, Seq<Seq<u8>>>,
    pub body: BodyView,
}

/// What a request holds: its method, its URL, the values under each name of a
/// header in lower case, and its body.
pub uninterp spec fn request_parts(request: reqwest::Request) -> RequestView;

/// The headers of a request whose URL held these credentials.
pub open spec fn sent_headers(
    credentials: Option<Seq<u8>>,
    headers: Map<Seq<char>, Seq<Seq<u8>>>,
) -> Map<Seq<char>, Seq<Seq<u8>>> {
    match credentials {
        Some(value) => map!["authorization"@ => seq![value]].union_prefer_right(headers),
        None => headers,
    }
}

/// Calls `reqwest`'s `Client::request` with a URL, then `RequestBuilder::headers`
/// and `RequestBuilder::build`. Whether there is a request, where it goes and
/// which credentials it carries is a function of the URL. It has this method, no
/// body, and these headers; they replace one of the same name that the
/// credentials gave it.
#[verifier::external_body]
fn build_request(
    client: &reqwest::Client,
    method: &str,
    url: &str,
    headers: reqwest::header::HeaderMap,
) -> (built: Result<reqwest::Request, reqwest::Error>)
    requires
        is_token(method@),
        header_entries(headers).dom().finite(),
        header_entries(headers).dom().len() <= 6553,
    ensures
        match built {
            Ok(request) => request_target(url@) is Some && request_parts(request) == (
            RequestView {
                method: method@,
                url: request_target(url@).unwrap().0,
                headers: sent_headers(request_target(url@).unwrap().1, header_entries(headers)),
                body: BodyView::Absent,
            }),
            Err(_) => request_target(url@) is None,
        },
{
    let method = reqwest::Method::from_bytes(method.as_bytes()).unwrap();
    client.request(method, url).headers(headers).build()
}

/// Sets the body through `reqwest`'s `Request::body_mut`: it is the text in
/// UTF-8, held in memory, and the other parts are as before.
#[verifier::external_body]
fn set_body(request: &mut reqwest::Request, text: String)
    ensures
        request_parts(*final(request)) == (RequestView {
            body: BodyView::Bytes { bytes: encode_utf8(text@) },
            ..request_parts(*old(request))
        }),
{
    *request.body_mut() = Some(reqwest::Body::from(text));
}

/// Calls `reqwest`'s `Request::try_clone`: the copy has the same parts. There is
/// none exactly if the body is a stream.
#[verifier::external_body]
fn copy_request(request: &reqwest::Request) -> (copy: Option<reqwest::Request>)
    ensures
        match copy {
            Some(same) => request_parts(*request).body !is Stream && request_parts(same)
                == request_parts(*request),
            None => request_parts(*request).body is Stream,
        },
{
    request.try_clone()
}

/// Why a webhook cannot be set up, as text.
pub enum WebhookErrorView {
    MissingVariable { name: Seq<char> },
    MissingColon { header: Seq<char> },
    InvalidMethod,
    InvalidHeaderName,
    InvalidHeaderValue,
    InvalidUrl,
    NotCloneable,
}

impl View for WebhookError {
    type V = WebhookErrorView;

    open spec fn view(&self) -> WebhookErrorView {
        match self {
            WebhookError::MissingVariable { name } => WebhookErrorView::MissingVariable {
                name: name@,
            },
            WebhookError::MissingColon { header } => WebhookErrorView::MissingColon {
                header: header@,
            },
            WebhookError::InvalidMethod => WebhookErrorView::InvalidMethod,
            WebhookError::InvalidHeaderName => WebhookErrorView::InvalidHeaderName,
            WebhookError::InvalidHeaderValue => WebhookErrorView::InvalidHeaderValue,
            WebhookError::InvalidUrl { .. } => WebhookErrorView::InvalidUrl,
            WebhookError::NotCloneable => WebhookErrorView::NotCloneable,
        }
    }
}

impl WebhookError {
    /// What is reported to the operator.
    pub fn to_string(&self) -> (message: String)
        ensures
            match *self {
                WebhookError::MissingVariable { name } => message@ == "Environment variable '"@
                    + name@ + "' not found"@,
                WebhookError::MissingColon { header } => message@ == "Invalid header '"@ + header@
                    + "': missing ':'"@,
                WebhookError::InvalidMethod => message@ == "invalid HTTP method"@,
                WebhookError::InvalidHeaderName => message@ == "invalid HTTP header name"@,
                WebhookError::InvalidHeaderValue => message@ == "failed to parse header value"@,
                WebhookError::InvalidUrl { cause } =>
                    vstd::string::to_string_from_display_ensures::<reqwest::Error>(
                    &cause,
                    message,
                ),
                WebhookError::NotCloneable => message@ == "request is not cloneable"@,
            },
    {
        match self {
            WebhookError::MissingVariable { name } => joined(
                joined("Environment variable '", name.as_str()).as_str(),
                "' not found",
            ),
            WebhookError::MissingColon { header } => joined(
                joined("Invalid header '", header.as_str()).as_str(),
                "': missing ':'",
            ),
            WebhookError::InvalidMethod => "invalid HTTP method".to_owned(),
            WebhookError::InvalidHeaderName => "invalid HTTP header name".to_owned(),
            WebhookError::InvalidHeaderValue => "failed to parse header value".to_owned(),
            WebhookError::InvalidUrl { cause } => cause.to_string(),
            WebhookError::NotCloneable => "request is not cloneable".to_owned(),
        }
    }
}

/// The name and value that a configured header line stands for.
pub open spec fn header_of(
    line: Seq<char>,
    variables: Seq<(Seq<char>, Seq<char>)>,
) -> Result<(Seq<char>, Seq<char>), WebhookErrorView> {
    match expansion(line, variables) {
        Err(name) => Err(WebhookErrorView::MissingVariable { name }),
        Ok(expanded) => match header_parts(expanded) {
            None => Err(WebhookErrorView::MissingColon { header: expanded }),
            Some((key, value)) => if !is_header_name(key) {
                Err(WebhookErrorView::InvalidHeaderName)
            } else if !is_header_value(value) {
                Err(WebhookErrorView::InvalidHeaderValue)
            } else {
                Ok((key, value))
            },
        },
    }
}

/// The headers that configured lines stand for: of lines with one name, in
/// whatever case, the last one counts. The first line that is no header is the
/// one that is reported.
pub open spec fn headers_of(
    lines: Seq<Seq<char>>,
    variables: Seq<(Seq<char>, Seq<char>)>,
) -> Result<Map<Seq<char>, Seq<Seq<u8>>>, WebhookErrorView>
    decreases lines.len(),
{
    if lines.len() == 0 {
        Ok(Map::empty())
    } else {
        match headers_of(lines.drop_last(), variables) {
            Err(error) => Err(error),
            Ok(headers) => match header_of(lines.last(), variables) {
                Err(error) => Err(error),
                Ok((key, value)) => Ok(
                    headers.insert(lower_case(key), seq![encode_utf8(value)]),
                ),
            },
        }
    }
}

/// Every beginning of the list of lines gives a number of headers that a
/// request can hold.
pub open spec fn headers_fit(
    lines: Seq<Seq<char>>,
    variables: Seq<(Seq<char>, Seq<char>)>,
) -> bool {
    forall|n: int|
        0 <= n <= lines.len() ==> match #[trigger] headers_of(lines.take(n), variables) {
            Ok(headers) => headers.dom().len() <= 6553,
            Err(_) => true,
        }
}

/// The headers are finitely many, and no more than the lines.
proof fn lemma_no_more_headers_than_lines(
    lines: Seq<Seq<char>>,
    variables: Seq<(Seq<char>, Seq<char>)>,
)
    ensures
        headers_of(lines, variables) matches Ok(headers) ==> headers.dom().finite()
            && headers.dom().len() <= lines.len(),
    decreases lines.len(),
{
    if lines.len() > 0 {
        lemma_no_more_headers_than_lines(lines.drop_last(), variables);
        if let Ok(headers) = headers_of(lines.drop_last(), variables) {
            if let Ok((key, value)) = header_of(lines.last(), variables) {
                assert(headers.insert(lower_case(key), seq![encode_utf8(value)]).dom()
                    == headers.dom().insert(lower_case(key)));
            }
        }
    }
}

/// A list of at most 6553 lines always fits.
pub proof fn lemma_short_lists_fit(
    lines: Seq<Seq<char>>,
    variables: Seq<(Seq<char>, Seq<char>)>,
)
    requires
        lines.len() <= 6553,
    ensures
        headers_fit(lines, variables),
{
    assert forall|n: int| 0 <= n <= lines.len() implies match #[trigger] headers_of(
        lines.take(n),
        variables,
    ) {
        Ok(headers) => headers.dom().len() <= 6553,
        Err(_) => true,
    } by {
        lemma_no_more_headers_than_lines(lines.take(n), variables);
    }
}

/// The last line counts: whatever stood under its name before, in whatever case,
/// is replaced, and everything else is kept.
pub proof fn lemma_last_header_counts(
    lines: Seq<Seq<char>>,
    line: Seq<char>,
    variables: Seq<(Seq<char>, Seq<char>)>,
    name: Seq<char>,
    value: Seq<char>,
)
    requires
        headers_of(lines, variables) is Ok,
        header_of(line, variables) == Ok::<(Seq<char>, Seq<char>), WebhookErrorView>(
            (name, value),
        ),
    ensures
        headers_of(lines.push(line), variables) == Ok::<
            Map<Seq<char>, Seq<Seq<u8>>>,
            WebhookErrorView,
        >(
            headers_of(lines, variables)->Ok_0.insert(
                lower_case(name),
                seq![encode_utf8(value)],
            ),
        ),
{
    assert(lines.push(line).drop_last() == lines);
}

/// Calls `http`'s `HeaderMap::keys_len`: the number of names that hold a value.
#[verifier::external_body]
fn count_names(headers: &reqwest::header::HeaderMap) -> (count: usize)
    ensures
        count == header_entries(*headers).dom().len(),
{
    headers.keys_len()
}

/// Whether the headers of a configuration are no more than a request can hold.
pub fn headers_fit_in(lines: &Vec<String>, variables: &Variables) -> (fit: bool)
    ensures
        fit == headers_fit(texts(lines@), variables@),
{
    let ghost all = texts(lines@);
    let mut headers = no_headers();
    assert(header_entries(headers) =~= Map::<Seq<char>, Seq<Seq<u8>>>::empty());
    let mut i: usize = 0;
    assert(all.take(0) == Seq::<Seq<char>>::empty());
    while i < lines.len()
        invariant
            i <= lines.len(),
            all == texts(lines@),
            headers_of(all.take(i as int), variables@) == Ok::<
                Map<Seq<char>, Seq<Seq<u8>>>,
                WebhookErrorView,
            >(header_entries(headers)),
            forall|n: int|
                0 <= n <= i ==> match #[trigger] headers_of(all.take(n), variables@) {
                    Ok(some) => some.dom().len() <= 6553,
                    Err(_) => true,
                },
        decreases lines.len() - i,
    {
        let ghost next = all.take(i + 1);
        assert(next.drop_last() == all.take(i as int));
        assert(next.last() == lines@[i as int]@);
        proof {
            lemma_no_more_headers_than_lines(all.take(i as int), variables@);
            assert(headers_of(all.take(i as int), variables@) is Ok);
        }
        match read_header(lines[i].as_str(), variables) {
            Ok((key, value)) => {
                insert_header(&mut headers, key.as_str(), value.as_str());
                assert(headers_of(next, variables@) == Ok::<
                    Map<Seq<char>, Seq<Seq<u8>>>,
                    WebhookErrorView,
                >(header_entries(headers)));
                if count_names(&headers) > 6553 {
                    return false;
                }
            },
            Err(_) => {
                proof {
                    assert forall|n: int| 0 <= n <= all.len() implies match #[trigger] headers_of(
                        all.take(n),
                        variables@,
                    ) {
                        Ok(some) => some.dom().len() <= 6553,
                        Err(_) => true,
                    } by {
                        if n > i {
                            assert(all.take(n).take(i + 1) =~= next);
                            lemma_first_failure_counts(all.take(n), variables@, i + 1);
                        }
                    }
                }
                return true;
            },
        }
        i = i + 1;
    }
    true
}

/// A letter of ASCII in upper case; any other character is kept.
pub open spec fn upper_letter(c: char) -> char {
    if 'a' <= c <= 'z' {
        ((c as u32 - 32) as u32) as char
    } else {
        c
    }
}

/// The method is `POST`, in whatever case.
pub open spec fn is_post(method: Seq<char>) -> bool {
    method.map_values(|c: char| upper_letter(c)) == "POST"@
}

/// A request to set up.
pub struct RequestPlan {
    pub method: String,
    pub url: String,
    pub headers: reqwest::header::HeaderMap,
    pub body: Option<String>,
}

/// A request to set up, as text.
#[verifier::ext_equal]
pub struct PlanView {
    pub method: Seq<char>,
    pub url: Seq<char>,
    pub headers: Map<Seq<char>, Seq<Seq<u8>>>,
    pub body: Option<Seq<char>>,
}

impl View for RequestPlan {
    type V = PlanView;

    open spec fn view(&self) -> PlanView {
        PlanView {
            method: self.method@,
            url: self.url@,
            headers: header_entries(self.headers),
            body: optional_text(self.body),
        }
    }
}

/// The body that is configured for a method, if any is to be sent.
pub open spec fn body_of(
    config: WebhookConfig,
    variables: Seq<(Seq<char>, Seq<char>)>,
) -> Result<Option<Seq<char>>, WebhookErrorView> {
    match config.data {
        Some(data) => if is_post(config.method@) {
            match expansion(data@, variables) {
                Ok(text) => Ok(Some(text)),
                Err(name) => Err(WebhookErrorView::MissingVariable { name }),
            }
        } else {
            Ok(None)
        },
        None => Ok(None),
    }
}

/// The request that a configuration stands for, or the first thing wrong with
/// it: in the URL, the method, the headers or the body, in this order.
pub open spec fn plan_of(
    config: WebhookConfig,
    variables: Seq<(Seq<char>, Seq<char>)>,
) -> Result<PlanView, WebhookErrorView> {
    match expansion(config.url@, variables) {
        Err(name) => Err(WebhookErrorView::MissingVariable { name }),
        Ok(url) => if !is_token(config.method@) {
            Err(WebhookErrorView::InvalidMethod)
        } else {
            match headers_of(texts(config.headers@), variables) {
                Err(error) => Err(error),
                Ok(headers) => match body_of(config, variables) {
                    Err(error) => Err(error),
                    Ok(body) => Ok(PlanView { method: config.method@, url, headers, body }),
                },
            }
        },
    }
}

/// A body is sent with `POST` only; for any other method the configured data is
/// not even looked at.
pub proof fn lemma_only_post_has_a_body(
    config: WebhookConfig,
    variables: Seq<(Seq<char>, Seq<char>)>,
    data: Option<String>,
)
    ensures
        plan_of(config, variables) matches Ok(plan) ==> (plan.body is Some <==> is_post(
            config.method@,
        ) && config.data is Some),
        !is_post(config.method@) ==> plan_of(config, variables) == plan_of(
            WebhookConfig { data, ..config },
            variables,
        ),
{
}

fn post(method: &str) -> (yes: bool)
    ensures
        yes == is_post(method@),
{
    let chars = characters(method);
    proof {
        reveal_strlit("POST");
    }
    let ghost upper = method@.map_values(|c: char| upper_letter(c));
    if chars.len() != 4 {
        assert(upper.len() != "POST"@.len());
        return false;
    }
    assert(upper[0] == upper_letter(method@[0]));
    assert(upper[1] == upper_letter(method@[1]));
    assert(upper[2] == upper_letter(method@[2]));
    assert(upper[3] == upper_letter(method@[3]));
    let yes = (chars[0] == 'P' || chars[0] == 'p') && (chars[1] == 'O' || chars[1] == 'o') && (
    chars[2] == 'S' || chars[2] == 's') && (chars[3] == 'T' || chars[3] == 't');
    assert(yes ==> upper =~= "POST"@);
    yes
}

impl RequestPlan {
    /// The request that a configuration stands for.
    pub fn new(config: &WebhookConfig, variables: &Variables) -> (plan: Result<
        RequestPlan,
        WebhookError,
    >)
        requires
            headers_fit(texts(config.headers@), variables@),
        ensures
            match plan {
                Ok(p) => plan_of(*config, variables@) == Ok::<PlanView, WebhookErrorView>(p@),
                Err(e) => plan_of(*config, variables@) == Err::<PlanView, WebhookErrorView>(e@),
            },
    {
        let url = match expand_env_vars(config.url.as_str(), variables) {
            Ok(url) => url,
            Err(error) => {
                return Err(error);
            },
        };
        if !accepts_method(config.method.as_str()) {
            return Err(WebhookError::InvalidMethod);
        }
        let headers = match collect_headers(&config.headers, variables) {
            Ok(headers) => headers,
            Err(error) => {
                return Err(error);
            },
        };
        let body = match &config.data {
            Some(data) => if post(config.method.as_str()) {
                match expand_env_vars(data.as_str(), variables) {
                    Ok(text) => Some(text),
                    Err(error) => {
                        return Err(error);
                    },
                }
            } else {
                None
            },
            None => None,
        };
        Ok(RequestPlan { method: config.method.clone(), url, headers, body })
    }
}

fn collect_headers(lines: &Vec<String>, variables: &Variables) -> (collected: Result<
    reqwest::header::HeaderMap,
    WebhookError,
>)
    requires
        headers_fit(texts(lines@), variables@),
    ensures
        match collected {
            Ok(headers) => headers_of(texts(lines@), variables@) == Ok::<
                Map<Seq<char>, Seq<Seq<u8>>>,
                WebhookErrorView,
            >(header_entries(headers)),
            Err(error) => headers_of(texts(lines@), variables@) == Err::<
                Map<Seq<char>, Seq<Seq<u8>>>,
                WebhookErrorView,
            >(error@),
        },
{
    let ghost all = texts(lines@);
    let mut headers = no_headers();
    assert(header_entries(headers) =~= Map::<Seq<char>, Seq<Seq<u8>>>::empty());
    let mut i: usize = 0;
    assert(all.take(0) == Seq::<Seq<char>>::empty());
    while i < lines.len()
        invariant
            i <= lines.len(),
            all == texts(lines@),
            headers_fit(all, variables@),
            headers_of(all.take(i as int), variables@) == Ok::<
                Map<Seq<char>, Seq<Seq<u8>>>,
                WebhookErrorView,
            >(header_entries(headers)),
        decreases lines.len() - i,
    {
        let ghost next = all.take(i + 1);
        assert(next.drop_last() == all.take(i as int));
        assert(next.last() == lines@[i as int]@);
        proof {
            lemma_no_more_headers_than_lines(all.take(i as int), variables@);
        }
        let failure: WebhookError = match read_header(lines[i].as_str(), variables) {
            Ok((key, value)) => {
                insert_header(&mut headers, key.as_str(), value.as_str());
                i = i + 1;
                continue ;
            },
            Err(error) => error,
        };
        proof {
            lemma_first_failure_counts(all, variables@, i + 1);
        }
        return Err(failure);
    }
    assert(all.take(all.len() as int) == all);
    Ok(headers)
}

/// Lines after one that is no header change nothing.
proof fn lemma_first_failure_counts(
    lines: Seq<Seq<char>>,
    variables: Seq<(Seq<char>, Seq<char>)>,
    n: int,
)
    requires
        0 <= n <= lines.len(),
        headers_of(lines.take(n), variables) is Err,
    ensures
        headers_of(lines, variables) == headers_of(lines.take(n), variables),
    decreases lines.len(),
{
    if n == lines.len() {
        assert(lines.take(n) == lines);
    } else {
        assert(lines.drop_last().take(n) == lines.take(n));
        lemma_first_failure_counts(lines.drop_last(), variables, n);
    }
}

fn read_header(line: &str, variables: &Variables) -> (read: Result<(String, String), WebhookError>)
    ensures
        match read {
            Ok((key, value)) => header_of(line@, variables@) == Ok::<
                (Seq<char>, Seq<char>),
                WebhookErrorView,
            >((key@, value@)),
            Err(error) => header_of(line@, variables@) == Err::<
                (Seq<char>, Seq<char>),
                WebhookErrorView,
            >(error@),
        },
{
    let expanded = match expand_env_vars(line, variables) {
        Ok(text) => text,
        Err(error) => {
            return Err(error);
        },
    };
    let (key, value) = match parse_header(expanded.as_str()) {
        Ok(parts) => parts,
        Err(error) => {
            return Err(error);
        },
    };
    if !accepts_header_name(key.as_str()) {
        return Err(WebhookError::InvalidHeaderName);
    }
    if !accepts_header_value(value.as_str()) {
        return Err(WebhookError::InvalidHeaderValue);
    }
    Ok((key, value))
}

/// The request that carries out a plan, where its URL can be sent a request to.
pub open spec fn planned_request(plan: PlanView) -> Option<RequestView> {
    match request_target(plan.url) {
        Some((url, credentials)) => Some(
            RequestView {
                method: plan.method,
                url,
                headers: sent_headers(credentials, plan.headers),
                body: match plan.body {
                    Some(text) => BodyView::Bytes { bytes: encode_utf8(text) },
                    None => BodyView::Absent,
                },
            },
        ),
        None => None,
    }
}

/// The request that a configuration stands for, or why there is none.
pub open spec fn configured_request(
    config: WebhookConfig,
    variables: Seq<(Seq<char>, Seq<char>)>,
) -> Result<RequestView, WebhookErrorView> {
    match plan_of(config, variables) {
        Err(error) => Err(error),
        Ok(plan) => match planned_request(plan) {
            Some(request) => Ok(request),
            None => Err(WebhookErrorView::InvalidUrl),
        },
    }
}

/// A request that stands in the configuration can be sent any number of times:
/// its body is never a stream.
pub proof fn lemma_configured_request_can_be_sent(
    config: WebhookConfig,
    variables: Seq<(Seq<char>, Seq<char>)>,
)
    ensures
        configured_request(config, variables) matches Ok(request) ==> request.body !is Stream,
{
}

/// Something that can be called once a deployment has ended.
pub trait Webhook {
    /// The request to send.
    fn send(&self) -> (request: Result<reqwest::Request, WebhookError>);
}

/// A webhook that is ready to be called.
pub struct WebhookImpl {
    pub request: reqwest::Request,
}

impl WebhookImpl {
    /// Sets up the request of a webhook, to be sent with `client`.
    pub fn new(
        config: &WebhookConfig,
        variables: &Variables,
        client: &reqwest::Client,
    ) -> (webhook: Result<WebhookImpl, WebhookError>)
        requires
            headers_fit(texts(config.headers@), variables@),
        ensures
            match (webhook, configured_request(*config, variables@)) {
                (Ok(w), Ok(request)) => request_parts(w.request) == request,
                (Err(error), Err(expected)) => error@ == expected,
                _ => false,
            },
    {
        let plan = match RequestPlan::new(config, variables) {
            Ok(plan) => plan,
            Err(error) => {
                return Err(error);
            },
        };
        proof {
            let all = texts(config.headers@);
            assert(all.take(all.len() as int) == all);
            lemma_no_more_headers_than_lines(all, variables@);
        }
        match build_request(client, plan.method.as_str(), plan.url.as_str(), plan.headers) {
            Ok(mut request) => {
                if let Some(text) = plan.body {
                    set_body(&mut request, text);
                }
                Ok(WebhookImpl { request })
            },
            Err(cause) => Err(WebhookError::InvalidUrl { cause }),
        }
    }
}

impl Webhook for WebhookImpl {
    /// The request to send: the same at every call. A stream could be sent once
    /// only, and is refused.
    fn send(&self) -> (request: Result<reqwest::Request, WebhookError>)
        ensures
            match request {
                Ok(r) => request_parts(self.request).body !is Stream && request_parts(r)
                    == request_parts(self.request),
                Err(error) => request_parts(self.request).body is Stream && error@
                    is NotCloneable,
            },
    {
        match copy_request(&self.request) {
            Some(request) => Ok(request),
            None => Err(WebhookError::NotCloneable),
        }
    }
}

/// What is called once a deployment has ended.
pub trait Webhooks {
    /// The webhook to call for a deployment that has ended like this.
    fn deployed_then_call(&self, deployed: &Deployed) -> (webhook: Option<&WebhookImpl>);
}

/// The webhooks that are configured.
pub struct WebhooksImpl {
    pub on_test_success: Option<WebhookImpl>,
    pub on_test_failure: Option<WebhookImpl>,
    pub on_prod_success: Option<WebhookImpl>,
    pub on_prod_failure: Option<WebhookImpl>,
}

/// What is wrong with a webhook, if one is configured and cannot be set up.
pub open spec fn refusal(
    config: Option<WebhookConfig>,
    variables: Seq<(Seq<char>, Seq<char>)>,
) -> Option<WebhookErrorView> {
    match config {
        Some(c) => match configured_request(c, variables) {
            Ok(_) => None,
            Err(error) => Some(error),
        },
        None => None,
    }
}

/// The webhook is the configured one, if one is configured.
pub open spec fn set_up(
    config: Option<WebhookConfig>,
    variables: Seq<(Seq<char>, Seq<char>)>,
    webhook: Option<WebhookImpl>,
) -> bool {
    match (config, webhook) {
        (Some(c), Some(w)) => configured_request(c, variables) == Ok::<
            RequestView,
            WebhookErrorView,
        >(request_parts(w.request)),
        (None, None) => true,
        _ => false,
    }
}

/// The first of four answers that there is.
pub open spec fn first_of(
    a: Option<WebhookErrorView>,
    b: Option<WebhookErrorView>,
    c: Option<WebhookErrorView>,
    d: Option<WebhookErrorView>,
) -> Option<WebhookErrorView> {
    if a is Some {
        a
    } else if b is Some {
        b
    } else if c is Some {
        c
    } else {
        d
    }
}

/// The headers of a webhook, if one is configured, are no more than a request
/// can hold.
pub open spec fn fits(
    config: Option<WebhookConfig>,
    variables: Seq<(Seq<char>, Seq<char>)>,
) -> bool {
    config matches Some(c) ==> headers_fit(texts(c.headers@), variables)
}

fn optional_webhook(
    config: &Option<WebhookConfig>,
    variables: &Variables,
    client: &reqwest::Client,
) -> (webhook: Result<Option<WebhookImpl>, WebhookError>)
    requires
        fits(*config, variables@),
    ensures
        match webhook {
            Ok(w) => set_up(*config, variables@, w) && refusal(*config, variables@) is None,
            Err(error) => refusal(*config, variables@) == Some(error@),
        },
{
    match config {
        Some(c) => match WebhookImpl::new(c, variables, client) {
            Ok(webhook) => Ok(Some(webhook)),
            Err(error) => Err(error),
        },
        None => Ok(None),
    }
}

impl WebhooksImpl {
    /// Sets up the configured webhooks, to be called with `client`.
    pub fn new(
        config: &WebhooksConfig,
        variables: &Variables,
        client: &reqwest::Client,
    ) -> (webhooks: Result<WebhooksImpl, WebhookError>)
        requires
            fits(config.on_test_success, variables@),
            fits(config.on_test_failure, variables@),
            fits(config.on_prod_success, variables@),
            fits(config.on_prod_failure, variables@),
        ensures
            ({
                let refused = first_of(
                    refusal(config.on_test_success, variables@),
                    refusal(config.on_test_failure, variables@),
                    refusal(config.on_prod_success, variables@),
                    refusal(config.on_prod_failure, variables@),
                );
                match webhooks {
                    Ok(w) => {
                        &&& refused is None
                        &&& set_up(config.on_test_success, variables@, w.on_test_success)
                        &&& set_up(config.on_test_failure, variables@, w.on_test_failure)
                        &&& set_up(config.on_prod_success, variables@, w.on_prod_success)
                        &&& set_up(config.on_prod_failure, variables@, w.on_prod_failure)
                    },
                    Err(error) => refused == Some(error@),
                }
            }),
    {
        let on_test_success = match optional_webhook(&config.on_test_success, variables, client) {
            Ok(webhook) => webhook,
            Err(error) => {
                return Err(error);
            },
        };
        let on_test_failure = match optional_webhook(&config.on_test_failure, variables, client) {
            Ok(webhook) => webhook,
            Err(error) => {
                return Err(error);
            },
        };
        let on_prod_success = match optional_webhook(&config.on_prod_success, variables, client) {
            Ok(webhook) => webhook,
            Err(error) => {
                return Err(error);
            },
        };
        let on_prod_failure = match optional_webhook(&config.on_prod_failure, variables, client) {
            Ok(webhook) => webhook,
            Err(error) => {
                return Err(error);
            },
        };
        Ok(WebhooksImpl { on_test_success, on_test_failure, on_prod_success, on_prod_failure })
    }

    /// The webhook that follows a deployment, if one is configured for how it
    /// ended.
    pub open spec fn webhook_for(self, deployed: DeployedView) -> Option<WebhookImpl> {
        match deployed {
            DeployedView::Init => None,
            DeployedView::TestAligned(_) => self.on_test_success,
            DeployedView::ProdAligned(_) => self.on_prod_success,
            DeployedView::TestFailed(_) => self.on_test_failure,
            DeployedView::ProdFailed(_) => self.on_prod_failure,
        }
    }
}

impl Webhooks for WebhooksImpl {
    fn deployed_then_call(&self, deployed: &Deployed) -> (webhook: Option<&WebhookImpl>)
        ensures
            match webhook {
                Some(w) => self.webhook_for(deployed@) == Some(*w),
                None => self.webhook_for(deployed@) is None,
            },
    {
        let chosen = match deployed {
            Deployed::Init => {
                return None;
            },
            Deployed::TestAligned(_) => &self.on_test_success,
            Deployed::ProdAligned(_) => &self.on_prod_success,
            Deployed::TestFailed(_) => &self.on_test_failure,
            Deployed::ProdFailed(_) => &self.on_prod_failure,
        };
        match chosen {
            Some(webhook) => Some(webhook),
            None => None,
        }
    }
}

/// The method is `POST` exactly if it has those four letters, each in either case.
pub proof fn lemma_post_is_read_in_either_case(method: Seq<char>)
    ensures
        is_post(method) <==> {
            &&& method.len() == 4
            &&& method[0] == 'P' || method[0] == 'p'
            &&& method[1] == 'O' || method[1] == 'o'
            &&& method[2] == 'S' || method[2] == 's'
            &&& method[3] == 'T' || method[3] == 't'
        },
{
    reveal_strlit("POST");
    let upper = method.map_values(|c: char| upper_letter(c));
    assert(upper.len() == method.len());
    if method.len() == 4 {
        assert(upper[0] == upper_letter(method[0]));
        assert(upper[1] == upper_letter(method[1]));
        assert(upper[2] == upper_letter(method[2]));
        assert(upper[3] == upper_letter(method[3]));
        if upper[0] == 'P' && upper[1] == 'O' && upper[2] == 'S' && upper[3] == 'T' {
            assert(upper =~= "POST"@);
        }
        if upper == "POST"@ {
            assert(upper[0] == 'P' && upper[1] == 'O' && upper[2] == 'S' && upper[3] == 'T');
        }
    }
}

/// What is posted is the whole text of the data, expanded: it is the body of the
/// plan and, in UTF-8, that of the request.
pub proof fn lemma_whole_data_is_posted(
    config: WebhookConfig,
    variables: Seq<(Seq<char>, Seq<char>)>,
    data: String,
    text: Seq<char>,
)
    requires
        is_post(config.method@),
        config.data == Some(data),
        expansion(data@, variables) == Ok::<Seq<char>, Seq<char>>(text),
    ensures
        plan_of(config, variables) matches Ok(plan) ==> plan.body == Some(text),
        configured_request(config, variables) matches Ok(request) ==> request.body == (
        BodyView::Bytes { bytes: encode_utf8(text) }),
{
}

/// Data without placeholders is posted as it stands, to the last character.
pub proof fn lemma_plain_data_is_posted_as_it_stands(
    config: WebhookConfig,
    variables: Seq<(Seq<char>, Seq<char>)>,
    data: String,
)
    requires
        is_post(config.method@),
        config.data == Some(data),
        forall|i: int| !#[trigger] placeholder_at(data@, i),
    ensures
        plan_of(config, variables) matches Ok(plan) ==> plan.body == Some(data@),
        configured_request(config, variables) matches Ok(request) ==> request.body == (
        BodyView::Bytes { bytes: encode_utf8(data@) }),
{
    lemma_other_brackets_are_kept(data@, variables);
}

/// A request is planned exactly if its URL, its method, its headers and the data
/// that it posts are in order, and it is the one that is configured: that method,
/// the URL expanded in full, those headers, and a body only where data is posted.
pub proof fn lemma_plan_is_what_is_configured(
    config: WebhookConfig,
    variables: Seq<(Seq<char>, Seq<char>)>,
)
    ensures
        plan_of(config, variables) is Ok <==> {
            &&& expansion(config.url@, variables) is Ok
            &&& is_token(config.method@)
            &&& headers_of(texts(config.headers@), variables) is Ok
            &&& is_post(config.method@) && config.data is Some ==> expansion(
                config.data.unwrap()@,
                variables,
            ) is Ok
        },
        plan_of(config, variables) matches Ok(plan) ==> {
            &&& plan.method == config.method@
            &&& expansion(config.url@, variables) == Ok::<Seq<char>, Seq<char>>(plan.url)
            &&& headers_of(texts(config.headers@), variables) == Ok::<
                Map<Seq<char>, Seq<Seq<u8>>>,
                WebhookErrorView,
            >(plan.headers)
            &&& plan.body is Some <==> is_post(config.method@) && config.data is Some
        },
{
}

/// The first thing wrong is reported: a variable of the URL, the method, a header,
/// a variable of the data, in this order.
pub proof fn lemma_first_fault_is_reported(
    config: WebhookConfig,
    variables: Seq<(Seq<char>, Seq<char>)>,
    error: WebhookErrorView,
)
    requires
        plan_of(config, variables) == Err::<PlanView, WebhookErrorView>(error),
    ensures
        match expansion(config.url@, variables) {
            Err(name) => error == (WebhookErrorView::MissingVariable { name }),
            Ok(_) => if !is_token(config.method@) {
                error is InvalidMethod
            } else {
                match headers_of(texts(config.headers@), variables) {
                    Err(wrong) => error == wrong,
                    Ok(_) => is_post(config.method@) && (config.data matches Some(data)
                        && expansion(data@, variables) matches Err(name) && error == (
                    WebhookErrorView::MissingVariable { name })),
                }
            },
        },
{
}

/// A request goes where its URL leads, by the method, with the headers and the body
/// that are planned; there is none exactly if the URL leads nowhere.
pub proof fn lemma_request_is_what_is_planned(
    config: WebhookConfig,
    variables: Seq<(Seq<char>, Seq<char>)>,
    plan: PlanView,
)
    requires
        plan_of(config, variables) == Ok::<PlanView, WebhookErrorView>(plan),
    ensures
        match (request_target(plan.url), configured_request(config, variables)) {
            (Some((url, credentials)), Ok(request)) => {
                &&& request.method == plan.method
                &&& request.url == url
                &&& request.headers == sent_headers(credentials, plan.headers)
                &&& plan.body is None ==> request.body is Absent
                &&& plan.body matches Some(text) ==> request.body == (BodyView::Bytes {
                    bytes: encode_utf8(text),
                })
            },
            (None, Err(error)) => error is InvalidUrl,
            _ => false,
        },
{
}

/// What stands wrong in the plan is what is wrong with the request.
pub proof fn lemma_faults_of_the_plan_are_kept(
    config: WebhookConfig,
    variables: Seq<(Seq<char>, Seq<char>)>,
    error: WebhookErrorView,
)
    requires
        plan_of(config, variables) == Err::<PlanView, WebhookErrorView>(error),
    ensures
        configured_request(config, variables) == Err::<RequestView, WebhookErrorView>(error),
{
}

/// Configured headers are all sent, as configured. Credentials of the URL are sent
/// besides, unless the configuration has an `authorization` header of its own.
pub proof fn lemma_configured_headers_are_sent(
    credentials: Option<Seq<u8>>,
    headers: Map<Seq<char>, Seq<Seq<u8>>>,
    name: Seq<char>,
)
    ensures
        headers.contains_key(name) ==> sent_headers(credentials, headers).contains_key(name)
            && sent_headers(credentials, headers)[name] == headers[name],
        credentials is None ==> sent_headers(credentials, headers) == headers,
        !headers.contains_key(name) ==> (sent_headers(credentials, headers).contains_key(name)
            <==> credentials is Some && name == "authorization"@),
        credentials matches Some(value) ==> (!headers.contains_key("authorization"@)
            ==> sent_headers(credentials, headers)["authorization"@] == seq![value]),
{
}

/// Lower case changes the letters of ASCII and nothing else, one for one.
pub proof fn lemma_lower_case_changes_capitals_only(text: Seq<char>, i: int)
    requires
        0 <= i < text.len(),
    ensures
        lower_case(text).len() == text.len(),
        'A' <= text[i] <= 'Z' ==> lower_case(text)[i] as int == text[i] as int + 32,
        !('A' <= text[i] <= 'Z') ==> lower_case(text)[i] == text[i],
{
}

/// Headers are collected exactly if every line is one; else the first line that is
/// none is reported.
pub proof fn lemma_every_line_must_be_a_header(
    lines: Seq<Seq<char>>,
    variables: Seq<(Seq<char>, Seq<char>)>,
    i: int,
)
    requires
        0 <= i <= lines.len(),
        forall|j: int| 0 <= j < i ==> header_of(#[trigger] lines[j], variables) is Ok,
        i < lines.len() ==> header_of(lines[i], variables) is Err,
    ensures
        i == lines.len() ==> headers_of(lines, variables) is Ok,
        i < lines.len() ==> headers_of(lines, variables) == Err::<
            Map<Seq<char>, Seq<Seq<u8>>>,
            WebhookErrorView,
        >(header_of(lines[i], variables)->Err_0),
    decreases lines.len(),
{
    if lines.len() > 0 {
        let init = lines.drop_last();
        if i == lines.len() {
            assert forall|j: int| 0 <= j < i - 1 implies header_of(
                #[trigger] init[j],
                variables,
            ) is Ok by {
                assert(init[j] == lines[j]);
            }
            lemma_every_line_must_be_a_header(init, variables, i - 1);
            assert(header_of(lines[i - 1], variables) is Ok);
        } else {
            assert forall|j: int| 0 <= j < i && j < init.len() implies header_of(
                #[trigger] init[j],
                variables,
            ) is Ok by {
                assert(init[j] == lines[j]);
            }
            lemma_every_line_must_be_a_header(init, variables, i);
            if i < init.len() {
                assert(init[i] == lines[i]);
            }
        }
    }
}

/// A line's header is there with its value, unless a later line has the same name,
/// in whatever case; and there is no header that no line has.
pub proof fn lemma_headers_are_those_of_the_lines(
    lines: Seq<Seq<char>>,
    variables: Seq<(Seq<char>, Seq<char>)>,
    headers: Map<Seq<char>, Seq<Seq<u8>>>,
    name: Seq<char>,
)
    requires
        headers_of(lines, variables) == Ok::<Map<Seq<char>, Seq<Seq<u8>>>, WebhookErrorView>(
            headers,
        ),
    ensures
        forall|i: int|
            0 <= i < lines.len() && (#[trigger] header_of(lines[i], variables) matches Ok(found)
                && lower_case(found.0) == name) && (forall|j: int|
                i < j < lines.len() ==> !(#[trigger] header_of(lines[j], variables) matches Ok(
                    later,
                ) && lower_case(later.0) == name)) ==> headers.contains_key(name) && headers[name]
                == seq![encode_utf8(header_of(lines[i], variables)->Ok_0.1)],
        headers.contains_key(name) ==> exists|i: int|
            0 <= i < lines.len() && (#[trigger] header_of(lines[i], variables) matches Ok(found)
                && lower_case(found.0) == name),
    decreases lines.len(),
{
    if lines.len() > 0 {
        let init = lines.drop_last();
        let last = lines.len() - 1;
        let before = headers_of(init, variables)->Ok_0;
        let found = header_of(lines[last], variables)->Ok_0;
        lemma_headers_are_those_of_the_lines(init, variables, before, name);
        assert(headers == before.insert(lower_case(found.0), seq![encode_utf8(found.1)]));
        assert forall|i: int| 0 <= i < last implies #[trigger] init[i] == lines[i] by {}
        assert forall|i: int|
            0 <= i < lines.len() && (#[trigger] header_of(lines[i], variables) matches Ok(one)
                && lower_case(one.0) == name) && (forall|j: int|
                i < j < lines.len() ==> !(#[trigger] header_of(lines[j], variables) matches Ok(
                    later,
                ) && lower_case(later.0) == name)) implies headers.contains_key(name)
            && headers[name] == seq![encode_utf8(header_of(lines[i], variables)->Ok_0.1)] by {
            if i < last {
                assert(header_of(lines[last], variables) is Ok);
                assert(lower_case(found.0) != name);
                assert(header_of(init[i], variables) == header_of(lines[i], variables));
                assert forall|j: int| i < j < init.len() implies !(#[trigger] header_of(
                    init[j],
                    variables,
                ) matches Ok(later) && lower_case(later.0) == name) by {
                    assert(header_of(lines[j], variables) == header_of(init[j], variables));
                }
            }
        }
        if headers.contains_key(name) {
            if lower_case(found.0) == name {
                assert(header_of(lines[last], variables) is Ok);
            } else {
                let i = choose|i: int|
                    0 <= i < init.len() && (#[trigger] header_of(init[i], variables) matches Ok(one)
                        && lower_case(one.0) == name);
                assert(header_of(lines[i], variables) == header_of(init[i], variables));
            }
        }
    }
}

/// A header line is cut at its first colon, after it was expanded; white space
/// around the name and around the value does not belong to them.
pub proof fn lemma_header_is_cut_at_the_first_colon(
    line: Seq<char>,
    variables: Seq<(Seq<char>, Seq<char>)>,
    name: Seq<char>,
    value: Seq<char>,
)
    requires
        !name.contains(':'),
    ensures
        header_parts(name) is None,
        header_parts(name + seq![':'] + value) == Some((trimmed(name), trimmed(value))),
        expansion(line, variables) == Ok::<Seq<char>, Seq<char>>(name) ==> header_of(
            line,
            variables,
        ) == Err::<(Seq<char>, Seq<char>), WebhookErrorView>(
            WebhookErrorView::MissingColon { header: name },
        ),
        expansion(line, variables) == Ok::<Seq<char>, Seq<char>>(name + seq![':'] + value) ==> (
        if !is_header_name(trimmed(name)) {
            header_of(line, variables) matches Err(error) && error is InvalidHeaderName
        } else if !is_header_value(trimmed(value)) {
            header_of(line, variables) matches Err(error) && error is InvalidHeaderValue
        } else {
            header_of(line, variables) == Ok::<(Seq<char>, Seq<char>), WebhookErrorView>(
                (trimmed(name), trimmed(value)),
            )
        }),
{
    let whole = name + seq![':'] + value;
    let n = name.len() as int;
    assert forall|i: int| 0 <= i < n implies name[i] != ':' by {
        assert(name.contains(name[i]));
    }
    lemma_position_is_the_first(name, ':', 0);
    assert forall|i: int| 0 <= i < n implies whole[i] != ':' by {
        assert(whole[i] == name[i]);
    }
    assert(whole[n] == ':');
    lemma_position_is_first(whole, ':', 0, n);
    assert(whole.take(n) =~= name);
    assert(whole.skip(n + 1) =~= value);
}

/// A header line with a variable that is not set is reported with it.
pub proof fn lemma_header_needs_its_variables(
    line: Seq<char>,
    variables: Seq<(Seq<char>, Seq<char>)>,
    name: Seq<char>,
)
    requires
        expansion(line, variables) == Err::<Seq<char>, Seq<char>>(name),
    ensures
        header_of(line, variables) == Err::<(Seq<char>, Seq<char>), WebhookErrorView>(
            WebhookErrorView::MissingVariable { name },
        ),
{
}

/// A variable has the value of the first entry of its name, and none without one.
pub proof fn lemma_value_is_that_of_the_first_entry(
    variables: Seq<(Seq<char>, Seq<char>)>,
    name: Seq<char>,
    i: int,
)
    requires
        0 <= i <= variables.len(),
        forall|j: int| 0 <= j < i ==> (#[trigger] variables[j]).0 != name,
        i < variables.len() ==> variables[i].0 == name,
    ensures
        i < variables.len() ==> value_of(variables, name) == Some(variables[i].1),
        i == variables.len() ==> value_of(variables, name) is None,
    decreases variables.len(),
{
    if variables.len() > 0 && i > 0 {
        let rest = variables.skip(1);
        assert(variables[0].0 != name);
        assert forall|j: int| 0 <= j < i - 1 implies (#[trigger] rest[j]).0 != name by {
            assert(rest[j] == variables[j + 1]);
        }
        if i < variables.len() {
            assert(rest[i - 1] == variables[i]);
        }
        lemma_value_is_that_of_the_first_entry(rest, name, i - 1);
    }
}

/// The name of a variable is a capital letter of ASCII, and after it any number of
/// capital letters, digits and underscores.
pub proof fn lemma_variables_are_named_in_capitals(name: Seq<char>)
    ensures
        is_variable_name(name) <==> {
            &&& name.len() > 0
            &&& 65 <= name[0] as int <= 90
            &&& forall|i: int|
                0 <= i < name.len() ==> {
                    let n = #[trigger] name[i] as int;
                    65 <= n <= 90 || 48 <= n <= 57 || n == 95
                }
        },
{
    if is_variable_name(name) {
        assert forall|i: int| 0 <= i < name.len() implies {
            let n = #[trigger] name[i] as int;
            65 <= n <= 90 || 48 <= n <= 57 || n == 95
        } by {
            assert(is_name_letter(name[i]));
        }
    }
}

/// Between what stands before it and what follows it, each expanded by itself, a
/// placeholder is replaced by its value as it is. Where it has none, the whole fails
/// with its name, unless something before it has failed already.
pub proof fn lemma_value_stands_in_place_of_its_placeholder(
    lead: Seq<char>,
    name: Seq<char>,
    rest: Seq<char>,
    variables: Seq<(Seq<char>, Seq<char>)>,
)
    requires
        is_variable_name(name),
    ensures
        ({
            let whole = expansion(lead + (seq!['<'] + name + seq!['>'] + rest), variables);
            match (expansion(lead, variables), value_of(variables, name)) {
                (Err(missing), _) => whole == Err::<Seq<char>, Seq<char>>(missing),
                (Ok(_), None) => whole == Err::<Seq<char>, Seq<char>>(name),
                (Ok(first), Some(value)) => match expansion(rest, variables) {
                    Ok(second) => whole == Ok::<Seq<char>, Seq<char>>(first + (value + second)),
                    Err(missing) => whole == Err::<Seq<char>, Seq<char>>(missing),
                },
            }
        }),
{
    lemma_placeholder_is_replaced(lead, name, rest, variables);
}

/// A placeholder begins at a `<` that the next `>` follows with a variable's name
/// between them, and nowhere else.
pub proof fn lemma_placeholder_is_a_name_in_brackets(text: Seq<char>, i: int, end: int)
    requires
        0 <= i < end < text.len(),
        text[end] == '>',
        forall|j: int| i < j < end ==> #[trigger] text[j] != '>',
    ensures
        placeholder_at(text, i) <==> text[i] == '<' && is_variable_name(
            text.subrange(i + 1, end),
        ),
{
    lemma_position_is_first(text, '>', i + 1, end);
}

/// The webhook of an outcome is the one that is configured for it: a success or a
/// failure, in test or in prod. Nothing is called as long as nothing was deployed.
pub proof fn lemma_each_outcome_has_its_webhook(webhooks: WebhooksImpl, commit: Seq<char>)
    ensures
        webhooks.webhook_for(DeployedView::TestAligned(commit)) == webhooks.on_test_success,
        webhooks.webhook_for(DeployedView::TestFailed(commit)) == webhooks.on_test_failure,
        webhooks.webhook_for(DeployedView::ProdAligned(commit)) == webhooks.on_prod_success,
        webhooks.webhook_for(DeployedView::ProdFailed(commit)) == webhooks.on_prod_failure,
        webhooks.webhook_for(DeployedView::Init) is None,
{
}

/// A webhook is set up exactly where one is configured, with the request that stands
/// in the configuration; one that cannot be set up is refused, with what is wrong.
pub proof fn lemma_webhook_is_set_up_as_configured(
    config: WebhookConfig,
    variables: Seq<(Seq<char>, Seq<char>)>,
    webhook: WebhookImpl,
)
    ensures
        set_up(Some(config), variables, Some(webhook)) <==> (configured_request(
            config,
            variables,
        ) matches Ok(request) && request_parts(webhook.request) == request),
        !set_up(Some(config), variables, None),
        !set_up(None, variables, Some(webhook)),
        set_up(None, variables, None),
        refusal(None, variables) is None,
        match configured_request(config, variables) {
            Ok(_) => refusal(Some(config), variables) is None,
            Err(error) => refusal(Some(config), variables) == Some(error),
        },
{
}

/// Of several faults the first one is reported, and none exactly if there is none.
pub proof fn lemma_first_of_the_faults(faults: Seq<Option<WebhookErrorView>>, i: int)
    requires
        faults.len() == 4,
        0 <= i <= 4,
        forall|j: int| 0 <= j < i ==> #[trigger] faults[j] is None,
        i < 4 ==> faults[i] is Some,
    ensures
        first_of(faults[0], faults[1], faults[2], faults[3]) == (if i < 4 {
            faults[i]
        } else {
            None
        }),
{
}

/// A method is a token: at least one character, each a letter, a digit or one of the
/// signs that HTTP allows. A header's name is a token of no more than 65535
/// characters, and its value any text, even an empty one, without controls of ASCII
/// but tabs.
pub proof fn lemma_methods_and_headers_are_those_of_http(text: Seq<char>)
    ensures
        is_token(text) <==> text.len() > 0 && forall|i: int|
            0 <= i < text.len() ==> {
                let n = #[trigger] text[i] as int;
                ||| 48 <= n <= 57 || 65 <= n <= 90 || 97 <= n <= 122
                ||| n == 33 || n == 35 || n == 36 || n == 37 || n == 38 || n == 39
                ||| n == 42 || n == 43 || n == 45 || n == 46 || n == 94 || n == 95
                ||| n == 96 || n == 124 || n == 126
            },
        is_header_name(text) <==> is_token(text) && text.len() <= 65535,
        is_header_value(text) <==> forall|i: int|
            0 <= i < text.len() ==> {
                let n = #[trigger] text[i] as int;
                n == 9 || 32 <= n < 127 || 127 < n
            },
{
    if is_token(text) {
        assert forall|i: int| 0 <= i < text.len() implies {
            let n = #[trigger] text[i] as int;
            ||| 48 <= n <= 57 || 65 <= n <= 90 || 97 <= n <= 122
            ||| n == 33 || n == 35 || n == 36 || n == 37 || n == 38 || n == 39
            ||| n == 42 || n == 43 || n == 45 || n == 46 || n == 94 || n == 95
            ||| n == 96 || n == 124 || n == 126
        } by {
            assert(is_token_char(text[i]));
        }
    }
}

/// What a plan, the variables and an error say is what they hold.
pub proof fn lemma_plan_says_what_it_holds(
    plan: RequestPlan,
    variables: Variables,
    error: WebhookError,
)
    ensures
        plan@.method == plan.method@,
        plan@.url == plan.url@,
        plan@.headers == header_entries(plan.headers),
        plan.body is None ==> plan@.body is None,
        plan.body matches Some(text) ==> plan@.body == Some(text@),
        variables@.len() == variables.entries@.len(),
        forall|i: int|
            0 <= i < variables@.len() ==> #[trigger] variables@[i] == (
                variables.entries@[i].0@,
                variables.entries@[i].1@,
            ),
        match error {
            WebhookError::MissingVariable { name } => error@ == (
            WebhookErrorView::MissingVariable { name: name@ }),
            WebhookError::MissingColon { header } => error@ == (WebhookErrorView::MissingColon {
                header: header@,
            }),
            WebhookError::InvalidMethod => error@ is InvalidMethod,
            WebhookError::InvalidHeaderName => error@ is InvalidHeaderName,
            WebhookError::InvalidHeaderValue => error@ is InvalidHeaderValue,
            WebhookError::InvalidUrl { .. } => error@ is InvalidUrl,
            WebhookError::NotCloneable => error@ is NotCloneable,
        },
{
}

/// Headers fit as long as they have no more names than a request can hold, however
/// many lines they take; without a webhook there is nothing to fit.
pub proof fn lemma_few_names_fit(
    config: WebhookConfig,
    variables: Seq<(Seq<char>, Seq<char>)>,
)
    requires
        headers_of(texts(config.headers@), variables) matches Ok(headers) && headers.dom().len()
            <= 6553,
    ensures
        headers_fit(texts(config.headers@), variables),
        fits(Some(config), variables),
        fits(None, variables),
{
    let lines = texts(config.headers@);
    assert forall|n: int| 0 <= n <= lines.len() implies match #[trigger] headers_of(
        lines.take(n),
        variables,
    ) {
        Ok(headers) => headers.dom().len() <= 6553,
        Err(_) => true,
    } by {
        lemma_more_lines_have_no_fewer_names(lines, variables, n);
        lemma_no_more_headers_than_lines(lines, variables);
        if let Ok(some) = headers_of(lines.take(n), variables) {
            vstd::set_lib::lemma_len_subset(
                some.dom(),
                headers_of(lines, variables)->Ok_0.dom(),
            );
        }
    }
}

proof fn lemma_more_lines_have_no_fewer_names(
    lines: Seq<Seq<char>>,
    variables: Seq<(Seq<char>, Seq<char>)>,
    n: int,
)
    requires
        0 <= n <= lines.len(),
        headers_of(lines, variables) is Ok,
    ensures
        headers_of(lines.take(n), variables) matches Ok(some) && some.dom().subset_of(
            headers_of(lines, variables)->Ok_0.dom(),
        ),
    decreases lines.len(),
{
    if n == lines.len() {
        assert(lines.take(n) =~= lines);
    } else {
        assert(lines.drop_last().take(n) =~= lines.take(n));
        lemma_more_lines_have_no_fewer_names(lines.drop_last(), variables, n);
    }
}

} // verus!
