use vstd::prelude::*;
use http_wire::WireDecode;

verus! {

/// How the bytes received so far frame an HTTP/1.x response.
#[derive(PartialEq, Eq, Structural, Clone, Copy, Debug)]
pub enum ResponseFrame {
    /// A whole response (head and body) occupies this many leading bytes.
    Complete(usize),
    /// The head or the body is not all there yet (a chunked body that does
    /// not parse is reported here too: the decoder cannot tell it from one
    /// that is cut short).
    NeedMore,
    /// The head does not parse.
    Malformed,
}

/// How http_wire frames a response held in these bytes.
pub uninterp spec fn wire_frame(bytes: Seq<u8>) -> ResponseFrame;

/// Relies on http_wire's `FullResponse::decode`, which measures the head with
/// httparse and the body by `Content-Length`, chunked encoding, or none for
/// 1xx, 204 and 304. A complete message lies within the buffer and is never
/// empty.
#[verifier::external_body]
fn decode_response_frame(bytes: &[u8]) -> (r: ResponseFrame)
    ensures
        r == wire_frame(bytes@),
        r matches ResponseFrame::Complete(n) ==> 1 <= n <= bytes@.len(),
{
    let mut headers = [http_wire::Header { name: "", value: &[] }; 64];
    match http_wire::response::FullResponse::decode(bytes, &mut headers) {
        Ok((_, n)) => ResponseFrame::Complete(n),
        Err(http_wire::WireError::PartialHead) => ResponseFrame::NeedMore,
        Err(http_wire::WireError::IncompleteBody(_)) => ResponseFrame::NeedMore,
        Err(http_wire::WireError::InvalidChunkedBody) => ResponseFrame::NeedMore,
        Err(_) => ResponseFrame::Malformed,
    }
}

/// What the reader made of the bytes just received.
#[derive(PartialEq, Eq, Structural, Clone, Copy, Debug)]
pub enum ReadOutcome {
    /// A whole response has arrived and was taken off the buffer.
    Complete,
    /// More bytes are needed.
    NeedMore,
    /// The peer closed the connection.
    Closed,
    /// The response does not parse.
    Malformed,
    /// The response does not fit in the reader's buffer.
    TooLarge,
}

impl ReadOutcome {
    /// Whether the response is over, one way or the other.
    pub fn is_final(&self) -> (r: bool)
        ensures
            r == (*self != ReadOutcome::NeedMore),
    {
        !matches!(self, ReadOutcome::NeedMore)
    }
}

/// Collects the bytes of responses on one keep-alive connection and tells
/// when a response is complete, by the message's own framing rather than by
/// the size of a read.
pub struct ResponseReader {
    buf: Vec<u8>,
    max_len: usize,
}

impl ResponseReader {
    pub closed spec fn buffered(&self) -> Seq<u8> {
        self.buf@
    }

    pub closed spec fn capacity(&self) -> nat {
        self.max_len as nat
    }

    /// A reader that holds at most `max_len` bytes of one response.
    pub fn new(max_len: usize) -> (r: ResponseReader)
        ensures
            r.buffered() == Seq::<u8>::empty(),
            r.capacity() == max_len,
    {
        ResponseReader { buf: Vec::new(), max_len }
    }

    /// Bytes held back: a response received in part, or what followed the
    /// last complete one.
    pub fn pending(&self) -> (r: usize)
        ensures
            r == self.buffered().len(),
    {
        self.buf.len()
    }

    /// Takes the bytes of one read; an empty read means the peer closed the
    /// connection.
    pub fn on_bytes(&mut self, data: &[u8]) -> (r: ReadOutcome)
        ensures
            final(self).capacity() == old(self).capacity(),
            data@.len() == 0 ==> r == ReadOutcome::Closed && final(self).buffered() == old(self).buffered(),
            data@.len() > 0 && old(self).buffered().len() + data@.len() > old(self).capacity() ==> r
                == ReadOutcome::TooLarge && final(self).buffered() == old(self).buffered(),
            data@.len() > 0 && old(self).buffered().len() + data@.len() <= old(self).capacity() ==> ({
                let joined = old(self).buffered() + data@;
                match wire_frame(joined) {
                    ResponseFrame::Complete(n) => r == ReadOutcome::Complete
                        && final(self).buffered() == joined.subrange(n as int, joined.len() as int),
                    ResponseFrame::NeedMore => r == ReadOutcome::NeedMore && final(self).buffered()
                        == joined,
                    ResponseFrame::Malformed => r == ReadOutcome::Malformed && final(self).buffered()
                        == joined,
                }
            }),
    {
        if data.len() == 0 {
            return ReadOutcome::Closed;
        }
        if data.len() > self.max_len || self.buf.len() > self.max_len - data.len() {
            return ReadOutcome::TooLarge;
        }
        let mut i: usize = 0;
        let ghost start = self.buf@;
        while i < data.len()
            invariant
                i <= data@.len(),
                self.buf@ == start + data@.subrange(0, i as int),
                self.max_len == old(self).max_len,
            decreases data@.len() - i,
        {
            self.buf.push(data[i]);
            i = i + 1;
            assert(self.buf@ =~= start + data@.subrange(0, i as int));
        }
        assert(data@.subrange(0, data@.len() as int) =~= data@);
        match decode_response_frame(self.buf.as_slice()) {
            ResponseFrame::Complete(n) => {
                let rest = self.buf.split_off(n);
                self.buf = rest;
                ReadOutcome::Complete
            },
            ResponseFrame::NeedMore => ReadOutcome::NeedMore,
            ResponseFrame::Malformed => ReadOutcome::Malformed,
        }
    }
}

} // verus!
