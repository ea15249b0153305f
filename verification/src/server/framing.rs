//! Frames: messages on a byte stream, each ended by a newline.
//!
//! The sender appends the delimiter to a payload; the receiver cuts the
//! stream after each delimiter and drops it again. Payloads that hold no
//! delimiter come out as they went in, in the order in which they were sent.

use vstd::prelude::*;
use vstd::slice::slice_subrange;

verus! {

/// The byte that ends a frame: a line feed.
pub const DELIMITER: u8 = 10;

/// The payload holds no frame delimiter.
pub open spec fn delimiter_free(payload: Seq<u8>) -> bool {
    forall|i: int| 0 <= i < payload.len() ==> payload[i] != DELIMITER
}

/// The frame that carries `payload`.
pub open spec fn framed(payload: Seq<u8>) -> Seq<u8> {
    payload.push(DELIMITER)
}

/// The length of the first frame on `stream`: everything up to and including
/// the first delimiter, or the whole stream if it holds none.
pub open spec fn first_frame_len(stream: Seq<u8>) -> nat
    decreases stream.len(),
{
    if stream.len() == 0 {
        0
    } else if stream[0] == DELIMITER {
        1
    } else {
        1 + first_frame_len(stream.drop_first())
    }
}

/// What a frame carries: the frame without the delimiter that ends it.
pub open spec fn payload_of(frame: Seq<u8>) -> Seq<u8> {
    if frame.len() > 0 && frame.last() == DELIMITER {
        frame.drop_last()
    } else {
        frame
    }
}

/// The payloads of all frames on `stream`, in the order of the stream.
pub open spec fn payloads_of(stream: Seq<u8>) -> Seq<Seq<u8>>
    decreases stream.len(),
{
    if stream.len() == 0 {
        Seq::empty()
    } else {
        let n = first_frame_len(stream) as int;
        if 0 < n <= stream.len() {
            seq![payload_of(stream.take(n))] + payloads_of(stream.skip(n))
        } else {
            Seq::empty()
        }
    }
}

/// The stream on which the given payloads are sent one after the other.
pub open spec fn stream_of(payloads: Seq<Seq<u8>>) -> Seq<u8>
    decreases payloads.len(),
{
    if payloads.len() == 0 {
        Seq::empty()
    } else {
        framed(payloads[0]) + stream_of(payloads.drop_first())
    }
}

/// The view of each payload in a list.
pub open spec fn views(payloads: Seq<Vec<u8>>) -> Seq<Seq<u8>> {
    payloads.map_values(|payload: Vec<u8>| payload@)
}

/// The first frame of a stream is never longer than the stream, and empty
/// only if the stream is.
pub proof fn lemma_first_frame_len_bounds(stream: Seq<u8>)
    ensures
        first_frame_len(stream) <= stream.len(),
        stream.len() > 0 ==> first_frame_len(stream) > 0,
    decreases stream.len(),
{
    if stream.len() > 0 && stream[0] != DELIMITER {
        lemma_first_frame_len_bounds(stream.drop_first());
    }
}

/// The first frame ends at the first delimiter: a prefix without delimiter,
/// followed by one, is the first frame.
pub proof fn lemma_first_frame_ends_at_delimiter(stream: Seq<u8>, at: int)
    requires
        0 <= at < stream.len(),
        stream[at] == DELIMITER,
        delimiter_free(stream.take(at)),
    ensures
        first_frame_len(stream) == at + 1,
    decreases at,
{
    if at > 0 {
        assert(stream.take(at)[0] == stream[0]);
        let rest = stream.drop_first();
        let prefix = rest.take(at - 1);
        assert(prefix =~= stream.take(at).drop_first());
        assert(delimiter_free(prefix)) by {
            assert forall|i: int| 0 <= i < prefix.len() implies prefix[i] != DELIMITER by {
                assert(prefix[i] == stream.take(at)[i + 1]);
            }
        }
        lemma_first_frame_ends_at_delimiter(rest, at - 1);
    }
}

/// A stream without delimiter is one unfinished frame.
pub proof fn lemma_first_frame_without_delimiter(stream: Seq<u8>)
    requires
        delimiter_free(stream),
    ensures
        first_frame_len(stream) == stream.len(),
    decreases stream.len(),
{
    if stream.len() > 0 {
        let rest = stream.drop_first();
        assert(delimiter_free(rest)) by {
            assert forall|i: int| 0 <= i < rest.len() implies rest[i] != DELIMITER by {
                assert(rest[i] == stream[i + 1]);
            }
        }
        lemma_first_frame_without_delimiter(rest);
    }
}

/// Round trip of one message: whatever follows it on the stream, a payload
/// without delimiter that was framed by the sender is cut off by the
/// receiver as one frame, and that frame carries the payload unchanged.
pub proof fn lemma_frame_round_trip(payload: Seq<u8>, rest: Seq<u8>)
    requires
        delimiter_free(payload),
    ensures
        first_frame_len(framed(payload) + rest) == payload.len() + 1,
        (framed(payload) + rest).take(payload.len() as int + 1) == framed(payload),
        (framed(payload) + rest).skip(payload.len() as int + 1) == rest,
        payload_of(framed(payload)) == payload,
{
    let stream = framed(payload) + rest;
    let at = payload.len() as int;
    assert(stream.take(at) =~= payload);
    lemma_first_frame_ends_at_delimiter(stream, at);
    assert(stream.take(at + 1) =~= framed(payload));
    assert(stream.skip(at + 1) =~= rest);
    assert(framed(payload).drop_last() =~= payload);
}

/// First in, first out: payloads without delimiter that are framed and sent
/// one after the other are received as the same payloads in the same order.
pub proof fn lemma_frames_arrive_in_order(payloads: Seq<Seq<u8>>)
    requires
        forall|i: int| 0 <= i < payloads.len() ==> delimiter_free(#[trigger] payloads[i]),
    ensures
        payloads_of(stream_of(payloads)) == payloads,
    decreases payloads.len(),
{
    if payloads.len() > 0 {
        let head = payloads[0];
        let tail = payloads.drop_first();
        assert forall|i: int| 0 <= i < tail.len() implies delimiter_free(#[trigger] tail[i]) by {
            assert(tail[i] == payloads[i + 1]);
        }
        lemma_frames_arrive_in_order(tail);
        lemma_frame_round_trip(head, stream_of(tail));
        assert(payloads_of(stream_of(payloads)) =~= seq![head] + tail);
        assert(seq![head] + tail =~= payloads);
    }
}

/// Frames a payload: the payload followed by the delimiter.
pub fn encode_frame(payload: &[u8]) -> (frame: Vec<u8>)
    ensures
        frame@ == framed(payload@),
{
    let mut frame: Vec<u8> = Vec::new();
    let mut i: usize = 0;
    while i < payload.len()
        invariant
            i <= payload@.len(),
            frame@ == payload@.take(i as int),
        decreases payload@.len() - i,
    {
        frame.push(payload[i]);
        assert(frame@ =~= payload@.take(i as int + 1));
        i += 1;
    }
    assert(payload@.take(payload@.len() as int) =~= payload@);
    frame.push(DELIMITER);
    frame
}

/// The number of bytes of `stream` that make up its first frame, as a reader
/// that reads until the delimiter takes them.
pub fn frame_len(stream: &[u8]) -> (len: usize)
    ensures
        len == first_frame_len(stream@),
        len <= stream@.len(),
{
    let mut i: usize = 0;
    while i < stream.len()
        invariant
            i <= stream@.len(),
            delimiter_free(stream@.take(i as int)),
        decreases stream@.len() - i,
    {
        if stream[i] == DELIMITER {
            proof {
                lemma_first_frame_ends_at_delimiter(stream@, i as int);
            }
            return i + 1;
        }
        proof {
            let longer = stream@.take(i as int + 1);
            assert forall|k: int| 0 <= k < longer.len() implies longer[k] != DELIMITER by {
                if k < i {
                    assert(stream@.take(i as int)[k] == stream@[k]);
                }
            }
        }
        i += 1;
    }
    proof {
        assert(stream@.take(stream@.len() as int) =~= stream@);
        lemma_first_frame_without_delimiter(stream@);
    }
    i
}

/// The payload of a frame that a reader handed over: the frame without its
/// closing delimiter. A last frame that the stream's end cut short is taken
/// as it is.
pub fn decode_frame(frame: &[u8]) -> (payload: Vec<u8>)
    ensures
        payload@ == payload_of(frame@),
{
    let n = frame.len();
    let end = if n > 0 && frame[n - 1] == DELIMITER {
        n - 1
    } else {
        n
    };
    let mut payload: Vec<u8> = Vec::new();
    let mut i: usize = 0;
    while i < end
        invariant
            i <= end <= frame@.len(),
            payload@ == frame@.take(i as int),
        decreases end - i,
    {
        payload.push(frame[i]);
        assert(payload@ =~= frame@.take(i as int + 1));
        i += 1;
    }
    assert(frame@.take(end as int) =~= payload_of(frame@));
    payload
}

/// Cuts a stream into frames and returns what they carry, in the order of
/// the stream.
pub fn decode_stream(stream: &[u8]) -> (payloads: Vec<Vec<u8>>)
    ensures
        views(payloads@) == payloads_of(stream@),
{
    let mut payloads: Vec<Vec<u8>> = Vec::new();
    let mut start: usize = 0;
    assert(views(payloads@) =~= Seq::<Seq<u8>>::empty());
    assert(stream@.skip(0) =~= stream@);
    while start < stream.len()
        invariant
            start <= stream@.len(),
            payloads_of(stream@) == views(payloads@) + payloads_of(stream@.skip(start as int)),
        decreases stream@.len() - start,
    {
        let rest = slice_subrange(stream, start, stream.len());
        assert(rest@ =~= stream@.skip(start as int));
        let n = frame_len(rest);
        proof {
            lemma_first_frame_len_bounds(rest@);
        }
        let frame = slice_subrange(rest, 0, n);
        assert(frame@ =~= rest@.take(n as int));
        let payload = decode_frame(frame);
        let ghost before = views(payloads@);
        payloads.push(payload);
        proof {
            assert(views(payloads@) =~= before.push(payload@));
            assert(rest@.skip(n as int) =~= stream@.skip(start as int + n as int));
            assert(before + (seq![payload@] + payloads_of(rest@.skip(n as int))) =~= before.push(
                payload@,
            ) + payloads_of(rest@.skip(n as int)));
        }
        start = start + n;
    }
    assert(views(payloads@) + Seq::<Seq<u8>>::empty() =~= views(payloads@));
    payloads
}

} // verus!
