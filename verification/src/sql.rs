//! What a SQL backend sends to its database, where that follows a rule: the
//! names of its tables and the patterns of its `LIKE` predicates.

use crate::common::i64_event_version::EventVersion;
use crate::text::push_char;
use crate::types::event_read_range::EventsReadRange;
use crate::types::stream_read_filter::{chars_of, occurs_at, occurs_in, StreamsReadFilter};
use vstd::prelude::*;
use vstd::string::StringExecFns;

verus! {

/// The name of the table that holds the streams of the store `name`.
pub fn streams_table_name(name: &str) -> (table: String)
    ensures
        table@ == "cs_streams_"@ + name@,
{
    String::from_str("cs_streams_").concat(name)
}

/// The name of the table that holds the events of the store `name`.
pub fn events_table_name(name: &str) -> (table: String)
    ensures
        table@ == "cs_events_"@ + name@,
{
    String::from_str("cs_events_").concat(name)
}

/// The name of the table that holds the commands of the store `name`.
pub fn commands_table_name(name: &str) -> (table: String)
    ensures
        table@ == "cs_commands_"@ + name@,
{
    String::from_str("cs_commands_").concat(name)
}

/// What narrows a read of a stream's events to `range`: the text to add to
/// the `WHERE` clause of a statement whose first parameter is the stream, and
/// the values of the parameters that the text adds, in order.
pub open spec fn range_clause_of(range: EventsReadRange<EventVersion>) -> (Seq<char>, Seq<i64>) {
    match range.limits() {
        (None, None) => (""@, Seq::empty()),
        (Some(least), None) => (" and version >= $2"@, seq![least]),
        (None, Some(greatest)) => (" and version <= $2"@, seq![greatest]),
        (Some(least), Some(greatest)) => (
            " and version >= $2 and version <= $3"@,
            seq![least, greatest],
        ),
    }
}

/// What a backend adds to the statement that reads a stream's events, so
/// that the database selects the events of `range` itself: the text for the
/// `WHERE` clause, and the values to bind to the parameters that the text
/// adds, in order. The statement's first parameter is the stream.
pub fn range_clause(range: &EventsReadRange<EventVersion>) -> (clause: (String, Vec<i64>))
    ensures
        (clause.0@, clause.1@) == range_clause_of(*range),
{
    let mut values: Vec<i64> = Vec::new();
    let text = match range.bounds() {
        (None, None) => String::from_str(""),
        (Some(least), None) => {
            values.push(least);
            String::from_str(" and version >= $2")
        },
        (None, Some(greatest)) => {
            values.push(greatest);
            String::from_str(" and version <= $2")
        },
        (Some(least), Some(greatest)) => {
            values.push(least);
            values.push(greatest);
            String::from_str(" and version >= $2 and version <= $3")
        },
    };
    assert(values@ =~= range_clause_of(*range).1);
    (text, values)
}

/// The character that takes away the special meaning of the character
/// after it in a pattern of `LIKE`.
pub open spec fn escape() -> char {
    '\\'
}

/// Whether `c` has a special meaning in a pattern of `LIKE`: `%` stands for
/// any text, `_` for any one character, and the escape character for what
/// follows it.
pub open spec fn is_special(c: char) -> bool {
    c == '%' || c == '_' || c == escape()
}

/// `c` as a pattern of `LIKE` that matches `c` and nothing else.
pub open spec fn escaped_char(c: char) -> Seq<char> {
    if is_special(c) {
        seq![escape(), c]
    } else {
        seq![c]
    }
}

/// `text` as a pattern of `LIKE` that matches `text` and nothing else: every
/// special character of `text` has the escape character in front.
pub open spec fn escaped(text: Seq<char>) -> Seq<char>
    decreases text.len(),
{
    if text.len() == 0 {
        Seq::empty()
    } else {
        escaped_char(text[0]) + escaped(text.skip(1))
    }
}

/// The pattern of `LIKE` that selects the streams that `filter` lets
/// through, where the filter selects by a pattern at all.
pub open spec fn like_pattern_of(filter: StreamsReadFilter) -> Option<Seq<char>> {
    match filter {
        StreamsReadFilter::AllStreams => None,
        StreamsReadFilter::StartsWith(part) => Some(escaped(part@) + seq!['%']),
        StreamsReadFilter::EndsWith(part) => Some(seq!['%'] + escaped(part@)),
        StreamsReadFilter::Contains(part) => Some(seq!['%'] + escaped(part@) + seq!['%']),
    }
}

/// Escaping a text with one more character at its end adds that character,
/// escaped, at the end.
pub proof fn lemma_escaped_push(text: Seq<char>, c: char)
    ensures
        escaped(text.push(c)) == escaped(text) + escaped_char(c),
    decreases text.len(),
{
    if text.len() == 0 {
        assert(text.push(c).skip(1) =~= Seq::<char>::empty());
        assert(escaped(text.push(c)) =~= escaped_char(c) + escaped(Seq::<char>::empty()));
        assert(escaped(text.push(c)) =~= escaped(text) + escaped_char(c));
    } else {
        assert(text.push(c).skip(1) =~= text.skip(1).push(c));
        lemma_escaped_push(text.skip(1), c);
        assert(escaped(text.push(c)) =~= escaped(text) + escaped_char(c));
    }
}

/// Appends `text` to `pattern`, with the escape character in front of every
/// special character.
fn append_escaped(pattern: &mut String, text: &str)
    ensures
        final(pattern)@ == old(pattern)@ + escaped(text@),
{
    let chars = chars_of(text);
    let mut i: usize = 0;
    proof {
        assert(chars@.take(0) =~= Seq::<char>::empty());
        assert(pattern@ =~= old(pattern)@ + escaped(chars@.take(0)));
    }
    while i < chars.len()
        invariant
            i <= chars@.len(),
            pattern@ == old(pattern)@ + escaped(chars@.take(i as int)),
        decreases chars@.len() - i,
    {
        let c = chars[i];
        if c == '%' || c == '_' || c == '\\' {
            push_char(pattern, '\\');
        }
        push_char(pattern, c);
        proof {
            lemma_escaped_push(chars@.take(i as int), c);
            assert(chars@.take(i + 1) =~= chars@.take(i as int).push(c));
            assert(pattern@ =~= old(pattern)@ + escaped(chars@.take(i + 1)));
        }
        i += 1;
    }
    proof {
        assert(chars@.take(i as int) =~= chars@);
    }
}

/// The pattern that a backend binds to `id LIKE ? ESCAPE '\'` to select the
/// streams that `filter` lets through, or nothing where the filter lets
/// every stream through. The filter's text stands in the pattern escaped,
/// so that the database takes it literally.
pub fn like_pattern(filter: &StreamsReadFilter) -> (pattern: Option<String>)
    ensures
        pattern.deep_view() == like_pattern_of(*filter),
{
    match filter {
        StreamsReadFilter::AllStreams => None,
        StreamsReadFilter::StartsWith(part) => {
            let mut pattern = String::new();
            append_escaped(&mut pattern, part.as_str());
            push_char(&mut pattern, '%');
            assert(pattern@ =~= escaped(part@) + seq!['%']);
            Some(pattern)
        },
        StreamsReadFilter::EndsWith(part) => {
            let mut pattern = String::new();
            push_char(&mut pattern, '%');
            append_escaped(&mut pattern, part.as_str());
            assert(pattern@ =~= seq!['%'] + escaped(part@));
            Some(pattern)
        },
        StreamsReadFilter::Contains(part) => {
            let mut pattern = String::new();
            push_char(&mut pattern, '%');
            append_escaped(&mut pattern, part.as_str());
            push_char(&mut pattern, '%');
            assert(pattern@ =~= seq!['%'] + escaped(part@) + seq!['%']);
            Some(pattern)
        },
    }
}

/// Whether `text` matches `pattern` as `LIKE` with the escape character
/// reads it: `%` matches any text, `_` any one character, the escape
/// character followed by a character matches that character, and any other
/// character matches itself. An escape character at the end of the pattern
/// matches nothing.
pub open spec fn like(pattern: Seq<char>, text: Seq<char>) -> bool
    decreases pattern.len(), text.len(),
{
    if pattern.len() == 0 {
        text.len() == 0
    } else if pattern[0] == escape() {
        &&& pattern.len() >= 2
        &&& text.len() > 0
        &&& text[0] == pattern[1]
        &&& like(pattern.skip(2), text.skip(1))
    } else if pattern[0] == '%' {
        like(pattern.skip(1), text) || (text.len() > 0 && like(pattern, text.skip(1)))
    } else if pattern[0] == '_' {
        text.len() > 0 && like(pattern.skip(1), text.skip(1))
    } else {
        text.len() > 0 && text[0] == pattern[0] && like(pattern.skip(1), text.skip(1))
    }
}

/// A text starts with `part` exactly where `part` is empty, or the text
/// starts with the first character of `part` and goes on with the rest.
proof fn lemma_starts_with(part: Seq<char>, text: Seq<char>)
    ensures
        occurs_at(part, text, 0) <==> part.len() == 0 || (text.len() > 0 && text[0] == part[0]
            && occurs_at(part.skip(1), text.skip(1), 0)),
{
    if part.len() == 0 {
        assert(text.subrange(0, 0) =~= part);
    } else if text.len() > 0 && part.len() <= text.len() {
        let head = text.subrange(0, part.len() as int);
        let tail = text.skip(1).subrange(0, part.len() - 1);
        if head == part {
            assert(head[0] == part[0]);
            assert(tail =~= part.skip(1));
        }
        if text[0] == part[0] && tail == part.skip(1) {
            assert forall|i: int| 0 <= i < part.len() implies head[i] == part[i] by {
                if i > 0 {
                    assert(tail[i - 1] == part.skip(1)[i - 1]);
                }
            }
            assert(head =~= part);
        }
    }
}

/// A text matches an escaped text followed by more pattern exactly where it
/// starts with the text and what follows matches the rest of the pattern.
pub proof fn lemma_like_escaped(part: Seq<char>, rest: Seq<char>, text: Seq<char>)
    ensures
        like(escaped(part) + rest, text) <==> occurs_at(part, text, 0) && like(
            rest,
            text.skip(part.len() as int),
        ),
    decreases part.len(),
{
    lemma_starts_with(part, text);
    if part.len() == 0 {
        assert(escaped(part) + rest =~= rest);
        assert(text.skip(0) =~= text);
    } else {
        let c = part[0];
        let tail = escaped(part.skip(1)) + rest;
        let pattern = escaped(part) + rest;
        assert(pattern =~= escaped_char(c) + tail);
        if is_special(c) {
            assert(pattern.skip(2) =~= tail);
            assert(pattern[0] == escape() && pattern[1] == c);
        } else {
            assert(pattern.skip(1) =~= tail);
            assert(pattern[0] == c);
        }
        if text.len() > 0 {
            lemma_like_escaped(part.skip(1), rest, text.skip(1));
            if part.len() <= text.len() {
                assert(text.skip(1).skip(part.len() - 1) =~= text.skip(part.len() as int));
            }
        }
    }
}

/// Every text matches the pattern `%`.
pub proof fn lemma_like_any(text: Seq<char>)
    ensures
        like(seq!['%'], text),
    decreases text.len(),
{
    let pattern = seq!['%'];
    assert(pattern.skip(1) =~= Seq::<char>::empty());
    assert(pattern[0] == '%');
    if text.len() == 0 {
        assert(like(pattern.skip(1), text));
    } else {
        lemma_like_any(text.skip(1));
    }
}

/// A text matches `%` followed by more pattern exactly where some end of
/// the text matches the rest of the pattern.
pub proof fn lemma_like_after_any(rest: Seq<char>, text: Seq<char>)
    ensures
        like(seq!['%'] + rest, text) <==> exists|k: int|
            0 <= k <= text.len() && #[trigger] like(rest, text.skip(k)),
    decreases text.len(),
{
    let pattern = seq!['%'] + rest;
    assert(pattern.skip(1) =~= rest);
    assert(pattern[0] == '%');
    assert(text.skip(0) =~= text);
    assert(like(pattern, text) <==> like(rest, text) || (text.len() > 0 && like(
        pattern,
        text.skip(1),
    )));
    if text.len() > 0 {
        lemma_like_after_any(rest, text.skip(1));
    }
    if like(pattern, text) {
        if like(rest, text) {
            assert(like(rest, text.skip(0)));
        } else {
            let k = choose|k: int|
                0 <= k <= text.skip(1).len() && #[trigger] like(rest, text.skip(1).skip(k));
            assert(text.skip(1).skip(k) =~= text.skip(k + 1));
            assert(like(rest, text.skip(k + 1)));
        }
    }
    if exists|k: int| 0 <= k <= text.len() && #[trigger] like(rest, text.skip(k)) {
        let k = choose|k: int| 0 <= k <= text.len() && #[trigger] like(rest, text.skip(k));
        if k > 0 {
            assert(text.skip(1).skip(k - 1) =~= text.skip(k));
            assert(like(rest, text.skip(1).skip(k - 1)));
        }
    }
}

/// The pattern that `like_pattern` builds for a filter selects, as `LIKE`
/// reads it, exactly the streams that the filter lets through: the filter's
/// text is taken literally, whatever characters it holds.
pub proof fn lemma_like_pattern_selects(filter: StreamsReadFilter, stream_id: Seq<char>)
    ensures
        match like_pattern_of(filter) {
            Some(pattern) => like(pattern, stream_id) == filter.accepts(stream_id),
            None => filter.accepts(stream_id),
        },
{
    let none = Seq::<char>::empty();
    let any = seq!['%'];
    match filter {
        StreamsReadFilter::AllStreams => {},
        StreamsReadFilter::StartsWith(part) => {
            lemma_like_escaped(part@, any, stream_id);
            lemma_like_any(stream_id.skip(part@.len() as int));
            assert(like(escaped(part@) + any, stream_id) == occurs_at(part@, stream_id, 0));
        },
        StreamsReadFilter::EndsWith(part) => {
            let part = part@;
            lemma_like_after_any(escaped(part), stream_id);
            let at = stream_id.len() - part.len();
            assert forall|k: int| 0 <= k <= stream_id.len() implies (#[trigger] like(
                escaped(part),
                stream_id.skip(k),
            ) <==> k == at && occurs_at(part, stream_id, at)) by {
                let end = stream_id.skip(k);
                lemma_like_escaped(part, none, end);
                assert(escaped(part) + none =~= escaped(part));
                if occurs_at(part, end, 0) && end.skip(part.len() as int).len() == 0 {
                    assert(stream_id.subrange(k, k + part.len()) =~= end.subrange(
                        0,
                        part.len() as int,
                    ));
                }
                if k == at && occurs_at(part, stream_id, at) {
                    assert(end.subrange(0, part.len() as int) =~= stream_id.subrange(
                        at,
                        at + part.len(),
                    ));
                }
            }
            if occurs_at(part, stream_id, at) {
                assert(like(escaped(part), stream_id.skip(at)));
            }
            assert(like(any + escaped(part), stream_id) == occurs_at(part, stream_id, at));
        },
        StreamsReadFilter::Contains(part) => {
            let part = part@;
            let rest = escaped(part) + any;
            assert(seq!['%'] + escaped(part) + seq!['%'] =~= any + rest);
            lemma_like_after_any(rest, stream_id);
            assert forall|k: int| 0 <= k <= stream_id.len() implies (#[trigger] like(
                rest,
                stream_id.skip(k),
            ) <==> occurs_at(part, stream_id, k)) by {
                let end = stream_id.skip(k);
                lemma_like_escaped(part, any, end);
                lemma_like_any(end.skip(part.len() as int));
                if part.len() <= end.len() {
                    assert(end.subrange(0, part.len() as int) =~= stream_id.subrange(
                        k,
                        k + part.len(),
                    ));
                }
            }
            if occurs_in(part, stream_id) {
                let k = choose|k: int| occurs_at(part, stream_id, k);
                assert(like(rest, stream_id.skip(k)));
            }
            assert(like(any + rest, stream_id) == occurs_in(part, stream_id));
        },
    }
}

} // verus!
