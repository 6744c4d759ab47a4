//! Decoding the frames of a server-sent event stream.
//!
//! The body of a streamed response arrives in chunks of bytes whose
//! boundaries mean nothing. The decoder appends every chunk to its buffer
//! and cuts frames off the front, each ended by a blank line.

use vstd::prelude::*;
use vstd::utf8::decode_utf8;
use vstd::utf8::valid_utf8;

use crate::error::OpenAiError;
use crate::error::utf8_error_message;
use crate::text::starts_with;
use crate::text::utf8_failure;
use crate::text::strip_text_prefix;
use crate::text::trim_text;
use crate::text::trimmed;
use crate::text::utf8_text;

verus! {

/// The byte of a line feed; two of them in a row end a frame.
pub const LINE_FEED: u8 = 10;

/// Whether a frame delimiter begins at position `at` of `buffer`.
pub open spec fn delimiter_at(buffer: Seq<u8>, at: int) -> bool {
    0 <= at && at + 1 < buffer.len() && buffer[at] == LINE_FEED && buffer[at + 1] == LINE_FEED
}

/// Whether the first frame delimiter of `buffer` begins at position `at`.
pub open spec fn is_first_delimiter(buffer: Seq<u8>, at: int) -> bool {
    delimiter_at(buffer, at) && forall|k: int| 0 <= k < at ==> !delimiter_at(buffer, k)
}

/// Where the first frame of `buffer` ends, its delimiter included; nothing
/// where the buffer holds no delimiter.
pub open spec fn frame_end(buffer: Seq<u8>) -> Option<int> {
    if exists|at: int| is_first_delimiter(buffer, at) {
        Some((choose|at: int| is_first_delimiter(buffer, at)) + 2)
    } else {
        None
    }
}

/// What one frame is.
pub enum FrameKind {
    /// A frame that begins with `data: `: what follows the prefix, without
    /// the white space at either end.
    Payload(Seq<char>),
    /// The frame whose payload is `[DONE]`: the stream ends here.
    Done,
    /// A frame without the prefix, such as a comment or a keep-alive line.
    Skipped,
    /// A frame that is not UTF-8.
    Invalid,
}

/// What the frame `frame` is, its delimiter included.
pub open spec fn classify(frame: Seq<u8>) -> FrameKind {
    if !valid_utf8(frame) {
        FrameKind::Invalid
    } else {
        let text = decode_utf8(frame);
        if starts_with(text, "data: "@) {
            let payload = trimmed(text.skip("data: "@.len() as int));
            if payload == "[DONE]"@ {
                FrameKind::Done
            } else {
                FrameKind::Payload(payload)
            }
        } else {
            FrameKind::Skipped
        }
    }
}

/// How far a stream has come.
#[derive(Debug, Clone, Copy, PartialEq, Eq, Structural)]
pub enum StreamEnd {
    /// More frames may follow.
    Open,
    /// The `[DONE]` frame was seen, or the bytes ran out.
    Done,
    /// A frame was not UTF-8.
    Failed,
}

/// What decoding came to: the payloads in order, the bytes that are still
/// waiting for the rest of their frame, and how far the stream has come.
/// Once the stream is over no bytes are kept.
pub struct Decoded {
    pub payloads: Seq<Seq<char>>,
    pub rest: Seq<u8>,
    pub end: StreamEnd,
}

/// The state of a decoder: its buffer, and how far the stream has come.
pub struct DecoderState {
    pub buffer: Seq<u8>,
    pub end: StreamEnd,
}

/// Decodes every complete frame of `buffer`, front to back, up to the
/// `[DONE]` frame or the first frame that is not UTF-8.
pub open spec fn decode_all(buffer: Seq<u8>) -> Decoded
    decreases buffer.len(),
{
    match frame_end(buffer) {
        None => Decoded { payloads: Seq::empty(), rest: buffer, end: StreamEnd::Open },
        Some(end) => {
            if 2 <= end <= buffer.len() {
                match classify(buffer.take(end)) {
                    FrameKind::Invalid => Decoded {
                        payloads: Seq::empty(),
                        rest: Seq::empty(),
                        end: StreamEnd::Failed,
                    },
                    FrameKind::Done => Decoded {
                        payloads: Seq::empty(),
                        rest: Seq::empty(),
                        end: StreamEnd::Done,
                    },
                    FrameKind::Skipped => decode_all(buffer.skip(end)),
                    FrameKind::Payload(payload) => {
                        let more = decode_all(buffer.skip(end));
                        Decoded {
                            payloads: seq![payload] + more.payloads,
                            rest: more.rest,
                            end: more.end,
                        }
                    },
                }
            } else {
                Decoded { payloads: Seq::empty(), rest: buffer, end: StreamEnd::Open }
            }
        },
    }
}

/// What asking for one payload came to: the payload, if a data frame was
/// complete, the bytes that are left, and how far the stream has come.
pub struct Pulled {
    pub payload: Option<Seq<char>>,
    pub rest: Seq<u8>,
    pub end: StreamEnd,
}

/// Decodes frames of `buffer`, front to back, up to the first payload:
/// frames without data are passed over, and the `[DONE]` frame or a frame
/// that is not UTF-8 ends the stream.
pub open spec fn pull(buffer: Seq<u8>) -> Pulled
    decreases buffer.len(),
{
    match frame_end(buffer) {
        None => Pulled { payload: None, rest: buffer, end: StreamEnd::Open },
        Some(end) => {
            if 2 <= end <= buffer.len() {
                match classify(buffer.take(end)) {
                    FrameKind::Invalid => Pulled {
                        payload: None,
                        rest: Seq::empty(),
                        end: StreamEnd::Failed,
                    },
                    FrameKind::Done => Pulled {
                        payload: None,
                        rest: Seq::empty(),
                        end: StreamEnd::Done,
                    },
                    FrameKind::Skipped => pull(buffer.skip(end)),
                    FrameKind::Payload(payload) => Pulled {
                        payload: Some(payload),
                        rest: buffer.skip(end),
                        end: StreamEnd::Open,
                    },
                }
            } else {
                Pulled { payload: None, rest: buffer, end: StreamEnd::Open }
            }
        },
    }
}

/// What a decoder in state `state` makes of one more chunk. A decoder
/// whose stream is over makes nothing of it.
pub open spec fn feed_step(state: DecoderState, chunk: Seq<u8>) -> Decoded {
    if state.end == StreamEnd::Open {
        decode_all(state.buffer + chunk)
    } else {
        Decoded { payloads: Seq::empty(), rest: state.buffer, end: state.end }
    }
}

/// What a decoder in state `state` makes of the chunks `chunks`, fed one
/// after the other.
pub open spec fn feed_all(state: DecoderState, chunks: Seq<Seq<u8>>) -> Decoded
    decreases chunks.len(),
{
    if chunks.len() == 0 {
        Decoded { payloads: Seq::empty(), rest: state.buffer, end: state.end }
    } else {
        let before = feed_all(state, chunks.drop_last());
        let last = feed_step(DecoderState { buffer: before.rest, end: before.end }, chunks.last());
        Decoded { payloads: before.payloads + last.payloads, rest: last.rest, end: last.end }
    }
}

/// The state of a decoder that has been fed nothing.
pub open spec fn initial_decoder() -> DecoderState {
    DecoderState { buffer: Seq::empty(), end: StreamEnd::Open }
}

/// The first frame of `buffer` that is not UTF-8, where decoding meets one
/// before the stream ends.
pub open spec fn failing_frame(buffer: Seq<u8>) -> Seq<u8>
    decreases buffer.len(),
{
    match frame_end(buffer) {
        None => Seq::empty(),
        Some(end) => {
            if 2 <= end <= buffer.len() {
                match classify(buffer.take(end)) {
                    FrameKind::Invalid => buffer.take(end),
                    FrameKind::Done => Seq::empty(),
                    FrameKind::Skipped => failing_frame(buffer.skip(end)),
                    FrameKind::Payload(_) => failing_frame(buffer.skip(end)),
                }
            } else {
                Seq::empty()
            }
        },
    }
}

/// The error for the frame `frame`, which is not UTF-8: `Unknown`, with
/// the message `UTF8 error: ` and the words of the decoder's error.
pub open spec fn is_encoding_error(error: OpenAiError, frame: Seq<u8>) -> bool {
    error matches OpenAiError::Unknown(message) && message@ == utf8_error_message(
        utf8_failure(frame),
    )
}

/// The texts of a list of payloads, in order.
pub open spec fn payload_views(payloads: Seq<String>) -> Seq<Seq<char>> {
    payloads.map_values(|payload: String| payload@)
}

/// The first delimiter of a buffer is where it is, whatever is looked for.
pub proof fn lemma_frame_end(buffer: Seq<u8>, at: int)
    requires
        is_first_delimiter(buffer, at),
    ensures
        frame_end(buffer) == Some(at + 2),
{
    let chosen = choose|k: int| is_first_delimiter(buffer, k);
    assert(is_first_delimiter(buffer, chosen));
    if chosen < at {
        assert(!delimiter_at(buffer, chosen));
    } else if at < chosen {
        assert(!delimiter_at(buffer, at));
    }
}

/// A buffer without a delimiter has no frame to give.
pub proof fn lemma_no_frame(buffer: Seq<u8>)
    requires
        forall|k: int| 0 <= k < buffer.len() ==> !delimiter_at(buffer, k),
    ensures
        frame_end(buffer) is None,
{
    if exists|at: int| is_first_delimiter(buffer, at) {
        let at = choose|at: int| is_first_delimiter(buffer, at);
        assert(delimiter_at(buffer, at));
        assert(!delimiter_at(buffer, at));
    }
}

/// Decoding everything is asking for one payload after the other: the
/// first payload, then everything that the bytes left behind it hold. A
/// payload always takes bytes off the buffer.
pub proof fn lemma_decode_all_pulls(buffer: Seq<u8>)
    ensures
        decode_all(buffer) == match pull(buffer).payload {
            Some(payload) => {
                let more = decode_all(pull(buffer).rest);
                Decoded { payloads: seq![payload] + more.payloads, rest: more.rest, end: more.end }
            },
            None => Decoded {
                payloads: Seq::empty(),
                rest: pull(buffer).rest,
                end: pull(buffer).end,
            },
        },
        pull(buffer).payload is Some ==> pull(buffer).rest.len() < buffer.len() && pull(buffer).end
            == StreamEnd::Open && failing_frame(buffer) == failing_frame(pull(buffer).rest),
    decreases buffer.len(),
{
    match frame_end(buffer) {
        None => {},
        Some(end) => {
            if 2 <= end <= buffer.len() {
                match classify(buffer.take(end)) {
                    FrameKind::Skipped => {
                        lemma_decode_all_pulls(buffer.skip(end));
                    },
                    _ => {},
                }
            }
        },
    }
}

/// Bytes appended to a buffer leave its first frame where it was.
proof fn lemma_first_delimiter_extends(head: Seq<u8>, tail: Seq<u8>, at: int)
    requires
        is_first_delimiter(head, at),
    ensures
        is_first_delimiter(head + tail, at),
        (head + tail).take(at + 2) == head.take(at + 2),
        (head + tail).skip(at + 2) == head.skip(at + 2) + tail,
{
    let whole = head + tail;
    assert(delimiter_at(whole, at));
    assert forall|k: int| 0 <= k < at implies !delimiter_at(whole, k) by {
        assert(!delimiter_at(head, k));
        assert(whole[k] == head[k]);
        assert(whole[k + 1] == head[k + 1]);
    }
    assert(whole.take(at + 2) =~= head.take(at + 2));
    assert(whole.skip(at + 2) =~= head.skip(at + 2) + tail);
}

/// Decoding a buffer that grew by `tail` picks up where decoding the
/// buffer as it was left off: the payloads found before come first, and
/// the bytes that were waiting are decoded together with `tail`. Where the
/// stream was over already, `tail` changes nothing. The frame on which
/// decoding fails, if it does, is the same either way.
pub proof fn lemma_decode_resumes(head: Seq<u8>, tail: Seq<u8>)
    ensures
        decode_all(head + tail) == if decode_all(head).end == StreamEnd::Open {
            let more = decode_all(decode_all(head).rest + tail);
            Decoded {
                payloads: decode_all(head).payloads + more.payloads,
                rest: more.rest,
                end: more.end,
            }
        } else {
            decode_all(head)
        },
        failing_frame(head + tail) == if decode_all(head).end == StreamEnd::Open {
            failing_frame(decode_all(head).rest + tail)
        } else {
            failing_frame(head)
        },
    decreases head.len(),
{
    match frame_end(head) {
        None => {
            assert(Seq::<Seq<char>>::empty() + decode_all(head + tail).payloads =~= decode_all(
                head + tail,
            ).payloads);
        },
        Some(end) => {
            let at = choose|at: int| is_first_delimiter(head, at);
            assert(is_first_delimiter(head, at));
            lemma_first_delimiter_extends(head, tail, at);
            lemma_frame_end(head + tail, at);
            match classify(head.take(end)) {
                FrameKind::Invalid => {},
                FrameKind::Done => {},
                FrameKind::Skipped => {
                    lemma_decode_resumes(head.skip(end), tail);
                },
                FrameKind::Payload(payload) => {
                    lemma_decode_resumes(head.skip(end), tail);
                    let found = decode_all(head.skip(end));
                    if found.end == StreamEnd::Open {
                        let more = decode_all(found.rest + tail);
                        assert(seq![payload] + (found.payloads + more.payloads) =~= (seq![payload]
                            + found.payloads) + more.payloads);
                    }
                },
            }
        },
    }
}

/// Where the chunks are cut does not matter: feeding a fresh decoder the
/// chunks one after the other comes to the same payloads, the same waiting
/// bytes and the same end as decoding all their bytes at once.
pub proof fn lemma_chunking_is_irrelevant(chunks: Seq<Seq<u8>>)
    ensures
        feed_all(initial_decoder(), chunks) == decode_all(chunks.flatten()),
    decreases chunks.len(),
{
    if chunks.len() == 0 {
        lemma_no_frame(Seq::<u8>::empty());
        assert(chunks.flatten() =~= Seq::<u8>::empty());
    } else {
        let earlier = chunks.drop_last();
        lemma_chunking_is_irrelevant(earlier);
        chunks.lemma_flatten_and_flatten_alt_are_equivalent();
        earlier.lemma_flatten_and_flatten_alt_are_equivalent();
        assert(chunks.flatten() =~= earlier.flatten() + chunks.last());
        lemma_decode_resumes(earlier.flatten(), chunks.last());
        let before = decode_all(earlier.flatten());
        if before.end != StreamEnd::Open {
            assert(before.payloads + Seq::<Seq<char>>::empty() =~= before.payloads);
        }
    }
}

/// Two ways of cutting the same bytes into chunks give the same payloads
/// in the same order.
pub proof fn lemma_same_bytes_same_payloads(first: Seq<Seq<u8>>, second: Seq<Seq<u8>>)
    requires
        first.flatten() == second.flatten(),
    ensures
        feed_all(initial_decoder(), first) == feed_all(initial_decoder(), second),
{
    lemma_chunking_is_irrelevant(first);
    lemma_chunking_is_irrelevant(second);
}

/// What one frame is, as the decoder hands it on.
#[derive(Debug)]
pub enum RawFrame {
    /// The payload of a data frame.
    Payload(String),
    /// The frame that ends the stream.
    Done,
    /// A frame that carries no data.
    Skipped,
}

/// Decodes one frame, its delimiter included: the payload of a data frame,
/// the end of the stream for the payload `[DONE]`, nothing for a frame
/// without the prefix `data: `, and an error for a frame that is not UTF-8.
pub fn decode_frame(frame: &[u8]) -> (r: Result<RawFrame, OpenAiError>)
    ensures
        match classify(frame@) {
            FrameKind::Payload(payload) => r matches Ok(RawFrame::Payload(text)) && text@
                == payload,
            FrameKind::Done => r matches Ok(RawFrame::Done),
            FrameKind::Skipped => r matches Ok(RawFrame::Skipped),
            FrameKind::Invalid => r matches Err(error) && is_encoding_error(error, frame@),
        },
{
    match utf8_text(frame) {
        Err(error) => Err(OpenAiError::from_utf8_error(error)),
        Ok(text) => match strip_text_prefix(text, "data: ") {
            Some(data) => {
                let payload: String = trim_text(data).to_owned();
                let sentinel: String = "[DONE]".to_owned();
                if payload == sentinel {
                    Ok(RawFrame::Done)
                } else {
                    Ok(RawFrame::Payload(payload))
                }
            },
            None => Ok(RawFrame::Skipped),
        },
    }
}

/// Where the first frame of `buffer` ends, its delimiter included.
pub fn find_frame_end(buffer: &[u8]) -> (end: Option<usize>)
    ensures
        match frame_end(buffer@) {
            Some(e) => end == Some(e as usize) && 2 <= e <= buffer.len(),
            None => end is None,
        },
{
    let n: usize = buffer.len();
    let mut at: usize = 0;
    while n - at >= 2
        invariant
            n == buffer.len(),
            at <= n,
            forall|k: int| 0 <= k < at ==> !delimiter_at(buffer@, k),
        decreases n - at,
    {
        if buffer[at] == LINE_FEED && buffer[at + 1] == LINE_FEED {
            proof {
                lemma_frame_end(buffer@, at as int);
            }
            return Some(at + 2);
        }
        at = at + 1;
    }
    proof {
        lemma_no_frame(buffer@);
    }
    None
}

/// What one chunk gave rise to: the payloads of the frames that it
/// completed, in order, and the error that ended the stream, if one did.
/// The payloads stand even where there is an error.
#[derive(Debug)]
pub struct FrameBatch {
    pub payloads: Vec<String>,
    pub error: Option<OpenAiError>,
}

/// The decoder of the frames of one streamed response.
#[derive(Debug)]
pub struct FrameDecoder {
    buffer: Vec<u8>,
    end: StreamEnd,
}

impl View for FrameDecoder {
    type V = DecoderState;

    closed spec fn view(&self) -> DecoderState {
        DecoderState { buffer: self.buffer@, end: self.end }
    }
}

impl FrameDecoder {
    /// A decoder that has been fed nothing.
    pub fn new() -> (decoder: FrameDecoder)
        ensures
            decoder@ == initial_decoder(),
    {
        FrameDecoder { buffer: Vec::new(), end: StreamEnd::Open }
    }

    /// How far the stream has come.
    pub fn end(&self) -> (end: StreamEnd)
        ensures
            end == self@.end,
    {
        self.end
    }

    /// Whether the stream is over, so that no further chunk has any effect.
    pub fn is_finished(&self) -> (finished: bool)
        ensures
            finished == (self@.end != StreamEnd::Open),
    {
        match self.end {
            StreamEnd::Open => false,
            _ => true,
        }
    }

    /// How many bytes are waiting for the rest of their frame.
    pub fn buffered(&self) -> (count: usize)
        ensures
            count == self@.buffer.len(),
    {
        self.buffer.len()
    }

    /// Ends the stream where the bytes ran out: the bytes that were still
    /// waiting for the rest of their frame are discarded, which is no
    /// error, and the stream is over. A stream that was over stays as it
    /// was.
    pub fn close(&mut self) -> (discarded: usize)
        ensures
            discarded == old(self)@.buffer.len(),
            final(self)@.buffer == Seq::<u8>::empty(),
            final(self)@.end == if old(self)@.end == StreamEnd::Open {
                StreamEnd::Done
            } else {
                old(self)@.end
            },
    {
        let discarded: usize = self.buffer.len();
        self.buffer = Vec::new();
        match self.end {
            StreamEnd::Open => {
                self.end = StreamEnd::Done;
            },
            _ => {},
        }
        discarded
    }

    /// Appends `chunk` to the buffer. A decoder whose stream is over
    /// takes no more bytes.
    pub fn push(&mut self, chunk: &[u8])
        ensures
            final(self)@.end == old(self)@.end,
            final(self)@.buffer == if old(self)@.end == StreamEnd::Open {
                old(self)@.buffer + chunk@
            } else {
                old(self)@.buffer
            },
    {
        match self.end {
            StreamEnd::Open => {
                self.buffer.extend_from_slice(chunk);
            },
            _ => {},
        }
    }

    /// Cuts frames off the front of the buffer up to the first payload, as
    /// [`pull`] describes, and returns the payload. It returns nothing
    /// where the buffer holds no complete data frame, or the stream is
    /// over, and an error where it meets a frame that is not UTF-8.
    pub fn next_frame(&mut self) -> (r: Result<Option<String>, OpenAiError>)
        ensures
            old(self)@.end != StreamEnd::Open ==> final(self)@ == old(self)@ && r matches Ok(None),
            old(self)@.end == StreamEnd::Open ==> {
                let pulled = pull(old(self)@.buffer);
                &&& final(self)@.buffer == pulled.rest
                &&& final(self)@.end == pulled.end
                &&& match r {
                    Ok(Some(payload)) => pulled.payload == Some(payload@),
                    Ok(None) => pulled.payload is None && pulled.end != StreamEnd::Failed,
                    Err(error) => pulled.payload is None && pulled.end == StreamEnd::Failed
                        && is_encoding_error(error, failing_frame(old(self)@.buffer)),
                }
            },
    {
        match self.end {
            StreamEnd::Open => {},
            _ => {
                return Ok(None);
            },
        }
        loop
            invariant
                self.end == StreamEnd::Open,
                old(self)@.end == StreamEnd::Open,
                pull(old(self)@.buffer) == pull(self.buffer@),
                failing_frame(old(self)@.buffer) == failing_frame(self.buffer@),
            decreases self.buffer.len(),
        {
            let cut: usize = match find_frame_end(self.buffer.as_slice()) {
                Some(cut) => cut,
                None => {
                    return Ok(None);
                },
            };
            let ghost current = self.buffer@;
            let mut frame: Vec<u8> = self.buffer.split_off(cut);
            std::mem::swap(&mut frame, &mut self.buffer);
            proof {
                assert(frame@ =~= current.take(cut as int));
                assert(self.buffer@ =~= current.skip(cut as int));
            }
            match decode_frame(frame.as_slice()) {
                Err(error) => {
                    self.buffer = Vec::new();
                    self.end = StreamEnd::Failed;
                    return Err(error);
                },
                Ok(RawFrame::Done) => {
                    self.buffer = Vec::new();
                    self.end = StreamEnd::Done;
                    return Ok(None);
                },
                Ok(RawFrame::Skipped) => {},
                Ok(RawFrame::Payload(payload)) => {
                    return Ok(Some(payload));
                },
            }
        }
    }

    /// Appends `chunk` to the buffer and decodes every frame that is now
    /// complete, as [`feed_step`] describes. An error is reported by the
    /// call that meets the frame that is not UTF-8, and by no later call.
    pub fn feed(&mut self, chunk: &[u8]) -> (batch: FrameBatch)
        ensures
            final(self)@.buffer == feed_step(old(self)@, chunk@).rest,
            final(self)@.end == feed_step(old(self)@, chunk@).end,
            payload_views(batch.payloads@) == feed_step(old(self)@, chunk@).payloads,
            batch.error is Some <==> old(self)@.end == StreamEnd::Open && final(self)@.end
                == StreamEnd::Failed,
            batch.error matches Some(e) ==> is_encoding_error(
                e,
                failing_frame(old(self)@.buffer + chunk@),
            ),
    {
        let mut payloads: Vec<String> = Vec::new();
        proof {
            assert(payload_views(payloads@) =~= Seq::empty());
        }
        match self.end {
            StreamEnd::Open => {},
            _ => {
                return FrameBatch { payloads, error: None };
            },
        }
        self.push(chunk);
        let ghost whole = self.buffer@;
        proof {
            assert(Seq::<Seq<char>>::empty() + decode_all(whole).payloads =~= decode_all(
                whole,
            ).payloads);
        }
        loop
            invariant
                self.end == StreamEnd::Open,
                old(self)@.end == StreamEnd::Open,
                feed_step(old(self)@, chunk@) == decode_all(whole),
                whole == old(self)@.buffer + chunk@,
                failing_frame(whole) == failing_frame(self.buffer@),
                decode_all(whole).payloads == payload_views(payloads@) + decode_all(
                    self.buffer@,
                ).payloads,
                decode_all(whole).rest == decode_all(self.buffer@).rest,
                decode_all(whole).end == decode_all(self.buffer@).end,
            decreases self.buffer.len(),
        {
            let ghost current = self.buffer@;
            proof {
                lemma_decode_all_pulls(current);
            }
            match self.next_frame() {
                Ok(Some(payload)) => {
                    let ghost sofar = payloads@;
                    payloads.push(payload);
                    proof {
                        let more = decode_all(pull(current).rest);
                        assert(payload_views(payloads@) =~= payload_views(sofar).push(payload@));
                        assert(payload_views(sofar) + (seq![payload@] + more.payloads)
                            =~= payload_views(sofar).push(payload@) + more.payloads);
                    }
                },
                Ok(None) => {
                    proof {
                        assert(payload_views(payloads@) + Seq::<Seq<char>>::empty()
                            =~= payload_views(payloads@));
                    }
                    return FrameBatch { payloads, error: None };
                },
                Err(error) => {
                    proof {
                        assert(payload_views(payloads@) + Seq::<Seq<char>>::empty()
                            =~= payload_views(payloads@));
                    }
                    return FrameBatch { payloads, error: Some(error) };
                },
            }
        }
    }
}

} // verus!
