use vstd::prelude::*;

verus! {

/// Which streams a listing returns, by the stream's name.
#[derive(Debug)]
pub enum StreamsReadFilter {
    /// Every stream.
    AllStreams,
    /// The streams whose name starts with the given text.
    StartsWith(String),
    /// The streams whose name ends with the given text.
    EndsWith(String),
    /// The streams whose name holds the given text somewhere.
    Contains(String),
}

/// Whether `part` stands in `whole` at the position `at`.
pub open spec fn occurs_at(part: Seq<char>, whole: Seq<char>, at: int) -> bool {
    &&& 0 <= at
    &&& at + part.len() <= whole.len()
    &&& whole.subrange(at, at + part.len()) == part
}

/// Whether `part` stands somewhere in `whole`.
pub open spec fn occurs_in(part: Seq<char>, whole: Seq<char>) -> bool {
    exists|at: int| occurs_at(part, whole, at)
}

impl StreamsReadFilter {
    /// Whether the filter lets a stream of the name `stream_id` through. The
    /// given text is taken literally, character by character.
    pub open spec fn accepts(self, stream_id: Seq<char>) -> bool {
        match self {
            StreamsReadFilter::AllStreams => true,
            StreamsReadFilter::StartsWith(part) => occurs_at(part@, stream_id, 0),
            StreamsReadFilter::EndsWith(part) => occurs_at(
                part@,
                stream_id,
                stream_id.len() - part@.len(),
            ),
            StreamsReadFilter::Contains(part) => occurs_in(part@, stream_id),
        }
    }

    /// Whether the filter lets a stream of the name `stream_id` through.
    pub fn selects(&self, stream_id: &str) -> (hit: bool)
        ensures
            hit == self.accepts(stream_id@),
    {
        match self {
            StreamsReadFilter::AllStreams => true,
            StreamsReadFilter::StartsWith(part) => {
                let whole = chars_of(stream_id);
                let part = chars_of(part.as_str());
                stands_at(&part, &whole, 0)
            },
            StreamsReadFilter::EndsWith(part) => {
                let whole = chars_of(stream_id);
                let part = chars_of(part.as_str());
                if part.len() <= whole.len() {
                    stands_at(&part, &whole, whole.len() - part.len())
                } else {
                    false
                }
            },
            StreamsReadFilter::Contains(part) => {
                let whole = chars_of(stream_id);
                let part = chars_of(part.as_str());
                stands_in(&part, &whole)
            },
        }
    }
}

impl Clone for StreamsReadFilter {
    fn clone(&self) -> (copy: Self)
        ensures
            copy == *self,
    {
        match self {
            StreamsReadFilter::AllStreams => StreamsReadFilter::AllStreams,
            StreamsReadFilter::StartsWith(part) => StreamsReadFilter::StartsWith(part.clone()),
            StreamsReadFilter::EndsWith(part) => StreamsReadFilter::EndsWith(part.clone()),
            StreamsReadFilter::Contains(part) => StreamsReadFilter::Contains(part.clone()),
        }
    }
}

/// The characters of `text`, in order.
pub fn chars_of(text: &str) -> (chars: Vec<char>)
    ensures
        chars@ == text@,
{
    let mut chars: Vec<char> = Vec::new();
    for c in it: text.chars()
        invariant
            it.seq() == text@,
            chars@ == it.seq().take(it.index() as int),
    {
        chars.push(c);
    }
    chars
}

/// Whether `part` stands in `whole` at the position `at`.
pub fn stands_at(part: &Vec<char>, whole: &Vec<char>, at: usize) -> (hit: bool)
    ensures
        hit == occurs_at(part@, whole@, at as int),
{
    if at > whole.len() || part.len() > whole.len() - at {
        return false;
    }
    let mut k: usize = 0;
    while k < part.len()
        invariant
            k <= part.len(),
            at + part.len() <= whole.len(),
            whole@.subrange(at as int, at + k) == part@.take(k as int),
        decreases part.len() - k,
    {
        if whole[at + k] != part[k] {
            assert(whole@.subrange(at as int, at + part.len())[k as int] != part@[k as int]);
            return false;
        }
        k += 1;
        assert(whole@.subrange(at as int, at + k) =~= part@.take(k as int)) by {
            assert(whole@.subrange(at as int, at + k) =~= whole@.subrange(at as int, at + k - 1).push(
                whole@[at + k - 1],
            ));
            assert(part@.take(k as int) =~= part@.take(k - 1).push(part@[k - 1]));
        }
    }
    assert(part@.take(k as int) =~= part@);
    true
}

/// Whether `part` stands somewhere in `whole`.
pub fn stands_in(part: &Vec<char>, whole: &Vec<char>) -> (hit: bool)
    ensures
        hit == occurs_in(part@, whole@),
{
    if part.len() > whole.len() {
        return false;
    }
    let last: usize = whole.len() - part.len();
    let mut at: usize = 0;
    loop
        invariant
            last == whole.len() - part.len(),
            at <= last,
            forall|earlier: int| 0 <= earlier < at ==> !occurs_at(part@, whole@, earlier),
        decreases last - at,
    {
        if stands_at(part, whole, at) {
            return true;
        }
        if at == last {
            return false;
        }
        at += 1;
    }
}

} // verus!
