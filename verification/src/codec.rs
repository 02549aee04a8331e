//! The framing of the two sockets: a message is its bytes and one
//! terminating zero byte.

use vstd::prelude::*;
use vstd::utf8::{decode_utf8, encode_utf8, encode_utf8_decode_utf8, encode_utf8_valid_utf8, valid_utf8};

verus! {

/// The byte that ends a frame.
pub const FRAME_END: u8 = 0;

/// `payload` holds no terminator and so can be framed.
pub open spec fn is_payload(payload: Seq<u8>) -> bool {
    forall|i: int| 0 <= i < payload.len() ==> #[trigger] payload[i] != FRAME_END
}

/// The frame that carries `payload`.
pub open spec fn encoded(payload: Seq<u8>) -> Seq<u8> {
    payload.push(FRAME_END)
}

/// The position of the first terminator in `bytes`; their number if there
/// is none.
pub open spec fn first_end(bytes: Seq<u8>) -> nat
    decreases bytes.len(),
{
    if bytes.len() == 0 || bytes[0] == FRAME_END {
        0
    } else {
        1 + first_end(bytes.drop_first())
    }
}

/// The payloads of the complete frames in `bytes`, in their order.
pub open spec fn frames_of(bytes: Seq<u8>) -> Seq<Seq<u8>>
    decreases bytes.len(),
{
    let end = first_end(bytes) as int;
    if end < bytes.len() {
        seq![bytes.take(end)] + frames_of(bytes.skip(end + 1))
    } else {
        Seq::empty()
    }
}

/// What follows the last terminator in `bytes`: the beginning of a frame
/// that is not complete yet.
pub open spec fn rest_of(bytes: Seq<u8>) -> Seq<u8>
    decreases bytes.len(),
{
    let end = first_end(bytes) as int;
    if end < bytes.len() {
        rest_of(bytes.skip(end + 1))
    } else {
        bytes
    }
}

/// `first_end` is the first position that holds a terminator.
pub proof fn lemma_first_end(bytes: Seq<u8>, at: int)
    requires
        0 <= at <= bytes.len(),
        forall|k: int| 0 <= k < at ==> #[trigger] bytes[k] != FRAME_END,
        at == bytes.len() || bytes[at] == FRAME_END,
    ensures
        first_end(bytes) == at,
    decreases at,
{
    if at > 0 {
        assert(bytes[0] != FRAME_END);
        assert forall|k: int| 0 <= k < at - 1 implies #[trigger] bytes.drop_first()[k]
            != FRAME_END by {
            assert(bytes.drop_first()[k] == bytes[k + 1]);
        }
        lemma_first_end(bytes.drop_first(), at - 1);
    }
}

/// What `first_end` finds: no terminator before it, and one at it unless
/// there is none at all.
pub proof fn lemma_first_end_found(bytes: Seq<u8>)
    ensures
        first_end(bytes) <= bytes.len(),
        forall|k: int| 0 <= k < first_end(bytes) ==> #[trigger] bytes[k] != FRAME_END,
        first_end(bytes) < bytes.len() ==> bytes[first_end(bytes) as int] == FRAME_END,
    decreases bytes.len(),
{
    if bytes.len() > 0 && bytes[0] != FRAME_END {
        lemma_first_end_found(bytes.drop_first());
        assert forall|k: int| 0 <= k < first_end(bytes) implies #[trigger] bytes[k]
            != FRAME_END by {
            if k > 0 {
                assert(bytes.drop_first()[k - 1] == bytes[k]);
            }
        }
    }
}

/// A frame is read back as its payload, with nothing left over.
pub proof fn lemma_frame_round_trip(payload: Seq<u8>)
    requires
        is_payload(payload),
    ensures
        frames_of(encoded(payload)) == seq![payload],
        rest_of(encoded(payload)) == Seq::<u8>::empty(),
{
    let bytes = encoded(payload);
    lemma_first_end(bytes, payload.len() as int);
    assert(bytes.take(payload.len() as int) =~= payload);
    assert(bytes.skip(payload.len() as int + 1) =~= Seq::<u8>::empty());
    lemma_first_end(Seq::<u8>::empty(), 0);
    assert(frames_of(Seq::<u8>::empty()) =~= Seq::<Seq<u8>>::empty());
    assert(rest_of(Seq::<u8>::empty()) =~= Seq::<u8>::empty());
    assert(rest_of(bytes) == rest_of(bytes.skip(payload.len() as int + 1)));
    assert(frames_of(bytes) =~= seq![payload]);
}

/// Frames written one after the other are read in that order: behind bytes
/// that end with a terminator, more bytes add their frames at the end and
/// decide what is left over.
pub proof fn lemma_frames_in_order(first: Seq<u8>, second: Seq<u8>)
    requires
        rest_of(first) == Seq::<u8>::empty(),
    ensures
        frames_of(first + second) == frames_of(first) + frames_of(second),
        rest_of(first + second) == rest_of(second),
    decreases first.len(),
{
    lemma_first_end_found(first);
    let end = first_end(first) as int;
    if end < first.len() {
        let both = first + second;
        assert forall|k: int| 0 <= k < end implies #[trigger] both[k] != FRAME_END by {
            assert(both[k] == first[k]);
        }
        assert(both[end] == first[end]);
        lemma_first_end(both, end);
        assert(both.take(end) =~= first.take(end));
        assert(both.skip(end + 1) =~= first.skip(end + 1) + second);
        lemma_frames_in_order(first.skip(end + 1), second);
        assert(frames_of(both) =~= frames_of(first) + frames_of(second));
    } else {
        assert(first + second =~= second);
        assert(frames_of(first) + frames_of(second) =~= frames_of(second));
    }
}

/// Two frames written in one piece are read as the two payloads, in order.
pub proof fn lemma_two_frames(first: Seq<u8>, second: Seq<u8>)
    requires
        is_payload(first),
        is_payload(second),
    ensures
        frames_of(encoded(first) + encoded(second)) == seq![first, second],
        rest_of(encoded(first) + encoded(second)) == Seq::<u8>::empty(),
{
    lemma_frame_round_trip(first);
    lemma_frame_round_trip(second);
    lemma_frames_in_order(encoded(first), encoded(second));
    assert(seq![first] + seq![second] =~= seq![first, second]);
}

/// Frames `payload`.
pub fn encode_frame(payload: &[u8]) -> (frame: Vec<u8>)
    ensures
        frame@ == encoded(payload@),
{
    let mut frame: Vec<u8> = Vec::new();
    let mut i: usize = 0;
    while i < payload.len()
        invariant
            i <= payload.len(),
            frame@ == payload@.take(i as int),
        decreases payload.len() - i,
    {
        frame.push(payload[i]);
        assert(payload@.take(i + 1) =~= payload@.take(i as int).push(payload@[i as int]));
        i = i + 1;
    }
    assert(payload@.take(payload@.len() as int) =~= payload@);
    frame.push(FRAME_END);
    frame
}

/// The frame that carries the text `response`: its bytes in UTF-8 and the
/// terminator.
pub fn write_response(response: &str) -> (frame: Vec<u8>)
    ensures
        frame@ == encoded(encode_utf8(response@)),
{
    encode_frame(response.as_bytes())
}

/// Calls `String::from_utf8`, which gives the text that the bytes encode
/// if they are valid UTF-8, and fails otherwise.
#[verifier::external_body]
fn text_from_utf8(bytes: Vec<u8>) -> (text: Option<String>)
    ensures
        match text {
            Some(decoded) => valid_utf8(bytes@) && decoded@ == decode_utf8(bytes@),
            None => !valid_utf8(bytes@),
        },
{
    match String::from_utf8(bytes) {
        Ok(text) => Some(text),
        Err(_) => None,
    }
}

/// The text that a payload carries; `None` if it is no valid UTF-8.
pub fn decode_payload(payload: Vec<u8>) -> (text: Option<String>)
    ensures
        match text {
            Some(decoded) => valid_utf8(payload@) && decoded@ == decode_utf8(payload@),
            None => !valid_utf8(payload@),
        },
{
    text_from_utf8(payload)
}

/// A text that is framed and read back is the same text.
pub proof fn lemma_text_round_trip(text: Seq<char>)
    requires
        is_payload(encode_utf8(text)),
    ensures
        frames_of(encoded(encode_utf8(text))) == seq![encode_utf8(text)],
        valid_utf8(encode_utf8(text)),
        decode_utf8(encode_utf8(text)) == text,
{
    lemma_frame_round_trip(encode_utf8(text));
    encode_utf8_valid_utf8(text);
    encode_utf8_decode_utf8(text);
}

/// The bytes of a connection that were received and not yet read as frames.
pub struct FrameBuffer {
    pending: Vec<u8>,
}

impl FrameBuffer {
    /// The bytes held.
    pub closed spec fn view(&self) -> Seq<u8> {
        self.pending@
    }

    /// A buffer that holds nothing.
    pub fn new() -> (buffer: FrameBuffer)
        ensures
            buffer@ == Seq::<u8>::empty(),
    {
        FrameBuffer { pending: Vec::new() }
    }

    /// Adds bytes that were received.
    pub fn extend(&mut self, chunk: &[u8])
        ensures
            final(self)@ == old(self)@ + chunk@,
    {
        let mut i: usize = 0;
        while i < chunk.len()
            invariant
                i <= chunk.len(),
                self.pending@ == old(self).pending@ + chunk@.take(i as int),
            decreases chunk.len() - i,
        {
            self.pending.push(chunk[i]);
            assert(chunk@.take(i + 1) =~= chunk@.take(i as int).push(chunk@[i as int]));
            assert(self.pending@ =~= old(self).pending@ + chunk@.take(i + 1));
            i = i + 1;
        }
        assert(chunk@.take(chunk@.len() as int) =~= chunk@);
    }

    /// Takes the payload of the first complete frame out of the buffer.
    /// Returns `None`, and keeps what it holds, if no frame is complete.
    pub fn next_frame(&mut self) -> (frame: Option<Vec<u8>>)
        ensures
            match frame {
                Some(payload) => {
                    &&& first_end(old(self)@) < old(self)@.len()
                    &&& payload@ == old(self)@.take(first_end(old(self)@) as int)
                    &&& final(self)@ == old(self)@.skip(first_end(old(self)@) as int + 1)
                },
                None => first_end(old(self)@) >= old(self)@.len() && final(self)@ == old(self)@,
            },
    {
        let n: usize = self.pending.len();
        let mut end: usize = 0;
        while end < n && self.pending[end] != FRAME_END
            invariant
                end <= n,
                n == self.pending@.len(),
                self.pending@ == old(self).pending@,
                forall|k: int| 0 <= k < end ==> #[trigger] self.pending@[k] != FRAME_END,
            decreases n - end,
        {
            end = end + 1;
        }
        proof {
            lemma_first_end(self.pending@, end as int);
        }
        if end == n {
            return None;
        }
        let mut payload = self.pending.split_off(end + 1);
        self.pending.truncate(end);
        std::mem::swap(&mut self.pending, &mut payload);
        assert(payload@ =~= old(self)@.take(end as int));
        assert(self.pending@ =~= old(self)@.skip(end + 1));
        Some(payload)
    }

    /// Takes the payloads of all complete frames out of the buffer, in
    /// their order.
    pub fn drain_frames(&mut self) -> (frames: Vec<Vec<u8>>)
        ensures
            frames@.map_values(|payload: Vec<u8>| payload@) == frames_of(old(self)@),
            final(self)@ == rest_of(old(self)@),
    {
        let mut frames: Vec<Vec<u8>> = Vec::new();
        loop
            invariant
                frames@.map_values(|payload: Vec<u8>| payload@) + frames_of(self@) == frames_of(
                    old(self)@,
                ),
                rest_of(self@) == rest_of(old(self)@),
            decreases self@.len(),
        {
            let ghost before = self@;
            let ghost done = frames@.map_values(|payload: Vec<u8>| payload@);
            match self.next_frame() {
                Some(payload) => {
                    let ghost first = payload@;
                    frames.push(payload);
                    proof {
                        assert(frames@.map_values(|payload: Vec<u8>| payload@) =~= done.push(first));
                        assert(done.push(first) + frames_of(self@) =~= done + frames_of(before));
                    }
                },
                None => {
                    proof {
                        assert(frames_of(self@) =~= Seq::<Seq<u8>>::empty());
                        assert(done + frames_of(self@) =~= done);
                    }
                    return frames;
                },
            }
        }
    }
}

} // verus!
