//! The grammar of the requests: parts separated by slashes, counted after
//! the surrounding whitespace is trimmed.

use vstd::prelude::*;

use crate::decimal::{leading, lemma_leading};
use crate::text::{chars_of, trim, trimmed};

verus! {

/// The number of parts of a subscription: context and parameter.
pub const EVENT_REQUEST_PARTS: usize = 2;

/// The number of parts of a call: context, procedure and argument.
pub const CALL_REQUEST_PARTS: usize = 3;

/// Why a request was refused.
#[derive(Clone, Copy, Debug, PartialEq, Eq, Structural)]
pub enum RequestError {
    /// The request has another number of parts than asked for.
    PartsCount,
}

/// The character is no slash.
pub open spec fn no_slash() -> spec_fn(char) -> bool {
    |c: char| c != '/'
}

/// The parts of `s` between its slashes; one part more than slashes.
pub open spec fn split_on_slash(s: Seq<char>) -> Seq<Seq<char>>
    decreases s.len(),
{
    let end = leading(s, no_slash()) as int;
    if end < s.len() {
        seq![s.take(end)] + split_on_slash(s.skip(end + 1))
    } else {
        seq![s]
    }
}

/// The parts of a request, if it has `count` of them.
pub open spec fn request_parts(request: Seq<char>, count: nat) -> Option<Seq<Seq<char>>> {
    let parts = split_on_slash(trimmed(request));
    if parts.len() == count {
        Some(parts)
    } else {
        None
    }
}

/// The texts of the parts.
pub open spec fn part_texts(parts: Seq<&str>) -> Seq<Seq<char>> {
    parts.map_values(|part: &str| part@)
}

/// `leading` does not go beyond the text.
pub proof fn lemma_leading_bound(s: Seq<char>, keep: spec_fn(char) -> bool)
    ensures
        leading(s, keep) <= s.len(),
    decreases s.len(),
{
    if s.len() > 0 && keep(s.first()) {
        lemma_leading_bound(s.drop_first(), keep);
    }
}

/// Splits the trimmed request at its slashes.
pub fn split_parts<'a>(request: &'a str) -> (parts: Vec<&'a str>)
    ensures
        part_texts(parts@) == split_on_slash(trimmed(request@)),
{
    let text = trim(request);
    let chars = chars_of(text);
    let n: usize = chars.len();
    let mut parts: Vec<&'a str> = Vec::new();
    let mut start: usize = 0;
    let mut i: usize = 0;
    proof {
        assert(text@.skip(0) =~= text@);
        assert(part_texts(parts@) + split_on_slash(text@) =~= split_on_slash(text@));
    }
    while i < n
        invariant
            start <= i <= n,
            n == chars@.len(),
            chars@ == text@,
            forall|k: int| start <= k < i ==> chars@[k] != '/',
            part_texts(parts@) + split_on_slash(text@.skip(start as int)) == split_on_slash(text@),
        decreases n - i,
    {
        if chars[i] == '/' {
            let ghost tail = text@.skip(start as int);
            let ghost done = part_texts(parts@);
            let part = text.substring_char(start, i);
            parts.push(part);
            proof {
                assert forall|k: int| 0 <= k < i - start implies no_slash()(#[trigger] tail[k]) by {
                    assert(tail[k] == chars@[start + k]);
                }
                assert(tail[i - start] == chars@[i as int]);
                lemma_leading(tail, no_slash(), i - start);
                assert(tail.take(i - start) =~= text@.subrange(start as int, i as int));
                assert(tail.skip(i - start + 1) =~= text@.skip(i + 1));
                assert(part_texts(parts@) =~= done.push(part@));
                assert(done.push(part@) + split_on_slash(text@.skip(i + 1)) =~= done
                    + split_on_slash(tail));
            }
            start = i + 1;
        }
        i = i + 1;
    }
    let ghost tail = text@.skip(start as int);
    let ghost done = part_texts(parts@);
    let part = text.substring_char(start, n);
    parts.push(part);
    proof {
        assert forall|k: int| 0 <= k < tail.len() implies no_slash()(#[trigger] tail[k]) by {
            assert(tail[k] == chars@[start + k]);
        }
        lemma_leading(tail, no_slash(), tail.len() as int);
        assert(tail =~= text@.subrange(start as int, n as int));
        assert(part_texts(parts@) =~= done.push(part@));
        assert(done.push(part@) =~= done + split_on_slash(tail));
    }
    parts
}

/// Splits a request into its parts and checks their number: the request is
/// trimmed and cut at every slash.
pub fn split_request<'a>(request: &'a str, right_parts_count: usize) -> (r: Result<
    Vec<&'a str>,
    RequestError,
>)
    ensures
        match r {
            Ok(parts) => request_parts(request@, right_parts_count as nat) == Some(
                part_texts(parts@),
            ),
            Err(e) => request_parts(request@, right_parts_count as nat) is None && e
                == RequestError::PartsCount,
        },
{
    let request_parts = split_parts(request);
    let parts_count: usize = request_parts.len();
    if parts_count != right_parts_count {
        return Err(RequestError::PartsCount);
    }
    Ok(request_parts)
}

/// A request without a slash is one part, whatever else it holds.
pub proof fn lemma_one_part(s: Seq<char>)
    requires
        forall|k: int| 0 <= k < s.len() ==> s[k] != '/',
    ensures
        split_on_slash(s) == seq![s],
{
    assert forall|k: int| 0 <= k < s.len() implies no_slash()(#[trigger] s[k]) by {}
    lemma_leading(s, no_slash(), s.len() as int);
}

/// The number of parts is the number of slashes and one.
pub proof fn lemma_parts_count(s: Seq<char>)
    ensures
        split_on_slash(s).len() == slashes(s) + 1,
    decreases s.len(),
{
    lemma_leading_bound(s, no_slash());
    let end = leading(s, no_slash()) as int;
    lemma_slashes_from(s, end);
    if end < s.len() {
        lemma_parts_count(s.skip(end + 1));
    }
}

/// How many slashes `s` holds.
pub open spec fn slashes(s: Seq<char>) -> nat
    decreases s.len(),
{
    if s.len() == 0 {
        0
    } else {
        slashes(s.drop_first()) + if s[0] == '/' {
            1nat
        } else {
            0nat
        }
    }
}

proof fn lemma_slashes_from(s: Seq<char>, end: int)
    requires
        end == leading(s, no_slash()),
        end <= s.len(),
    ensures
        end < s.len() ==> slashes(s) == slashes(s.skip(end + 1)) + 1,
        end == s.len() ==> slashes(s) == 0,
    decreases s.len(),
{
    if s.len() > 0 {
        if no_slash()(s.first()) {
            lemma_leading_bound(s.drop_first(), no_slash());
            lemma_slashes_from(s.drop_first(), end - 1);
            if end < s.len() {
                assert(s.drop_first().skip(end) =~= s.skip(end + 1));
            }
        } else {
            assert(s.skip(1) =~= s.drop_first());
        }
    }
}

} // verus!
