//! Streams of requests: the body that they make up, and the two halves of a
//! call that sends and receives at once.
use bytes::Bytes;
use http::HeaderMap;
use vstd::prelude::*;

use crate::buffer::BufferView;
use crate::client::request::frame_message;
use crate::client::request::framed;
use crate::client::stream::ServerStream;
use crate::client::stream::StreamView;
use crate::codec::CodecFormat;
use crate::compression::outcome_view;
use crate::compression::Outcome;
use crate::envelope::encoder::EncoderView;
use crate::envelope::encoder::EnvelopeEncoder;
use crate::error::plain_error;
use crate::error::ConnectError;
use crate::error::ErrorCode;
use crate::error::ErrorView;
use crate::headers::HeadersView;

verus! {

// ---------------------------------------------------------------------------
// A body made of messages
// ---------------------------------------------------------------------------

/// A request body made of messages that come one by one.
pub struct EncodingBody {
    /// What messages are framed with.
    pub encoder: EnvelopeEncoder,
    /// The format of messages.
    pub codec_format: CodecFormat,
    /// Why a message could not be encoded, if one could not.
    pub error: Option<ConnectError>,
    /// Whether the body is complete. No message is asked for any more.
    pub done: bool,
}

/// The contents of a body made of messages.
pub struct EncodingView {
    /// What messages are framed with.
    pub encoder: EncoderView,
    /// The format of messages.
    pub codec_format: CodecFormat,
    /// Why a message could not be encoded, if one could not.
    pub error: Option<ErrorView>,
    /// Whether the body is complete.
    pub done: bool,
}

impl View for EncodingBody {
    type V = EncodingView;

    open spec fn view(&self) -> EncodingView {
        EncodingView {
            encoder: self.encoder@,
            codec_format: self.codec_format,
            error: match self.error {
                Some(e) => Some(e@),
                None => None,
            },
            done: self.done,
        }
    }
}

/// The next message of a body: an encoded message, why it could not be encoded,
/// or none any more.
pub type NextMessage = Option<Result<Seq<u8>, ErrorView>>;

/// The contents of a next message.
pub open spec fn next_view(next: Option<Result<Bytes, ConnectError>>) -> NextMessage {
    match next {
        Some(r) => Some(outcome_view(r)),
        None => None,
    }
}

/// A body whose message could not be encoded.
pub open spec fn spoiled(body: EncodingView, e: ErrorView) -> EncodingView {
    EncodingView { done: true, error: Some(e), ..body }
}

/// What the next message of a body may come to: a frame, an error that
/// completes the body, or the end.
pub open spec fn body_polled(
    before: EncodingView,
    message: NextMessage,
    frame: NextMessage,
    after: EncodingView,
) -> bool {
    if before.done {
        frame is None && after == before
    } else {
        match message {
            None => frame is None && after == (EncodingView { done: true, ..before }),
            Some(Err(e)) => frame == Some(Outcome::Err(e)) && after == spoiled(before, e),
            Some(Ok(bytes)) => match frame {
                Some(Ok(framed_bytes)) => framed(before.encoder, bytes, Outcome::Ok(framed_bytes)) && after == before,
                Some(Err(e)) => framed(before.encoder, bytes, Outcome::Err(e)) && after == spoiled(before, e),
                None => false,
            },
        }
    }
}

impl EncodingBody {
    /// A body without messages so far.
    pub fn new(encoder: EnvelopeEncoder, codec_format: CodecFormat) -> (body: Self)
        ensures
            body@ == (EncodingView { encoder: encoder@, codec_format, error: None, done: false }),
    {
        EncodingBody { encoder, codec_format, error: None, done: false }
    }

    /// Take the next message, and give the next frame. An error is kept, so
    /// that the call can report it rather than the failure of the transport
    /// that it leads to.
    pub fn poll(&mut self, message: Option<Result<Bytes, ConnectError>>) -> (frame: Option<Result<Bytes, ConnectError>>)
        ensures
            body_polled(old(self)@, next_view(message), next_view(frame), final(self)@),
    {
        if self.done {
            return None;
        }
        let encoded = match message {
            Some(Ok(bytes)) => frame_message(&self.encoder, bytes),
            Some(Err(e)) => Err(e),
            None => {
                self.done = true;
                return None;
            },
        };
        match encoded {
            Ok(bytes) => Some(Ok(bytes)),
            Err(e) => {
                self.done = true;
                self.error = Some(e.clone());
                Some(Err(e))
            },
        }
    }
}

/// A complete body stays complete, and asks for nothing.
pub proof fn lemma_complete_body_stays(
    before: EncodingView,
    message: NextMessage,
    frame: NextMessage,
    after: EncodingView,
)
    requires
        body_polled(before, message, frame, after),
    ensures
        before.done ==> frame is None && after == before,
        !(frame matches Some(Ok(_))) ==> after.done,
{
}

/// What a call with a stream of requests comes to: an error of encoding comes
/// before whatever the server answered to the requests that it got.
pub fn client_stream_result<T>(encode_error: Option<ConnectError>, result: Result<T, ConnectError>) -> (r: Result<
    T,
    ConnectError,
>)
    ensures
        match encode_error {
            Some(e) => r == Err::<T, ConnectError>(e),
            None => r == result,
        },
{
    match encode_error {
        Some(e) => Err(e),
        None => result,
    }
}

// ---------------------------------------------------------------------------
// The half that sends
// ---------------------------------------------------------------------------

/// The half of a call that sends requests.
pub struct BidiSendHalf {
    /// Whether more can be sent.
    pub open: bool,
    /// What messages are framed with.
    pub encoder: EnvelopeEncoder,
    /// The format of messages.
    pub codec_format: CodecFormat,
}

/// Whether a message can be sent: not after the deadline, and not once the half
/// was closed.
pub open spec fn send_outcome(open: bool, deadline_passed: bool) -> Result<(), ErrorView> {
    if deadline_passed {
        Err(plain_error(ErrorCode::DeadlineExceeded, "client-side deadline exceeded"@))
    } else if !open {
        Err(plain_error(ErrorCode::Internal, "send after close_send"@))
    } else {
        Ok(())
    }
}

impl BidiSendHalf {
    /// A half that is open.
    pub fn new(encoder: EnvelopeEncoder, codec_format: CodecFormat) -> (half: Self)
        ensures
            half == (BidiSendHalf { open: true, encoder, codec_format }),
    {
        BidiSendHalf { open: true, encoder, codec_format }
    }

    /// Refuse to send after the deadline, or once the half was closed.
    pub fn check_send(&self, deadline_passed: bool) -> (r: Result<(), ConnectError>)
        ensures
            crate::envelope::encoder::unit_view(r) == send_outcome(self.open, deadline_passed),
    {
        if deadline_passed {
            return Err(ConnectError::deadline_exceeded("client-side deadline exceeded"));
        }
        if !self.open {
            return Err(ConnectError::internal("send after close_send"));
        }
        Ok(())
    }

    /// Frame a message for sending.
    pub fn frame(&self, message: Bytes) -> (r: Result<Bytes, ConnectError>)
        ensures
            framed(self.encoder@, message@, outcome_view(r)),
    {
        frame_message(&self.encoder, message)
    }

    /// What sending comes to: an error where nobody takes the frame any more.
    pub fn sent(&self, accepted: bool) -> (r: Result<(), ConnectError>)
        ensures
            crate::envelope::encoder::unit_view(r) == if accepted {
                Ok::<(), ErrorView>(())
            } else {
                Err(
                    plain_error(
                        ErrorCode::Unavailable,
                        "stream closed by server (call message() for error)"@,
                    ),
                )
            },
    {
        if accepted {
            Ok(())
        } else {
            Err(ConnectError::unavailable("stream closed by server (call message() for error)"))
        }
    }

    /// Send no more. Closing again changes nothing.
    pub fn close_send(&mut self)
        ensures
            *final(self) == (BidiSendHalf { open: false, ..*old(self) }),
    {
        self.open = false;
    }
}

// ---------------------------------------------------------------------------
// The half that receives
// ---------------------------------------------------------------------------

/// How far receiving has come.
pub enum RecvState {
    /// The request is under way, and no headers have arrived.
    AwaitingHeaders,
    /// Headers have arrived, and the stream is being made.
    Constructing,
    /// There is a stream to read.
    Ready(Box<ServerStream>),
    /// It failed before there was a stream.
    Failed(ConnectError),
}

/// The contents of a state of receiving.
pub enum RecvView {
    /// No headers have arrived.
    AwaitingHeaders,
    /// The stream is being made.
    Constructing,
    /// There is a stream to read.
    Ready { stream: StreamView },
    /// It failed before there was a stream.
    Failed { error: ErrorView },
}

/// The half of a call that receives responses.
pub struct BidiRecvHalf {
    /// How far receiving has come.
    pub recv: RecvState,
}

impl View for BidiRecvHalf {
    type V = RecvView;

    open spec fn view(&self) -> RecvView {
        match self.recv {
            RecvState::AwaitingHeaders => RecvView::AwaitingHeaders,
            RecvState::Constructing => RecvView::Constructing,
            RecvState::Ready(stream) => RecvView::Ready { stream: stream@ },
            RecvState::Failed(e) => RecvView::Failed { error: e@ },
        }
    }
}

/// What comes of the arrival of headers, or of a failure before it.
pub open spec fn after_headers(state: RecvView, outcome: Result<(), ErrorView>) -> RecvView {
    match (state, outcome) {
        (RecvView::AwaitingHeaders, Ok(())) => RecvView::Constructing,
        (RecvView::AwaitingHeaders, Err(error)) => RecvView::Failed { error },
        _ => state,
    }
}

/// What comes of the making of a stream, or of its failure.
pub open spec fn after_construction(state: RecvView, outcome: Result<StreamView, ErrorView>) -> RecvView {
    match (state, outcome) {
        (RecvView::Constructing, Ok(stream)) => RecvView::Ready { stream },
        (RecvView::Constructing, Err(error)) => RecvView::Failed { error },
        _ => state,
    }
}

/// The contents of a stream that was made, or of why not.
pub open spec fn made_view(made: Result<ServerStream, ConnectError>) -> Result<StreamView, ErrorView> {
    match made {
        Ok(stream) => Ok(stream@),
        Err(e) => Err(e@),
    }
}

impl BidiRecvHalf {
    /// No headers have arrived.
    pub fn new() -> (half: Self)
        ensures
            half@ is AwaitingHeaders,
    {
        BidiRecvHalf { recv: RecvState::AwaitingHeaders }
    }

    /// Headers have arrived, or receiving has failed before.
    pub fn headers_arrived(&mut self, outcome: Result<(), ConnectError>)
        ensures
            final(self)@ == after_headers(old(self)@, crate::envelope::encoder::unit_view(outcome)),
    {
        if let RecvState::AwaitingHeaders = &self.recv {
            self.recv = match outcome {
                Ok(()) => RecvState::Constructing,
                Err(e) => RecvState::Failed(e),
            };
        }
    }

    /// The stream was made, or could not be.
    pub fn constructed(&mut self, made: Result<ServerStream, ConnectError>)
        ensures
            final(self)@ == after_construction(old(self)@, made_view(made)),
    {
        if let RecvState::Constructing = &self.recv {
            self.recv = match made {
                Ok(stream) => RecvState::Ready(Box::new(stream)),
                Err(e) => RecvState::Failed(e),
            };
        }
    }

    /// Whether work is under way that is to be given up along with this half.
    pub fn is_pending(&self) -> (pending: bool)
        ensures
            pending == (self@ is AwaitingHeaders || self@ is Constructing),
    {
        match &self.recv {
            RecvState::AwaitingHeaders => true,
            RecvState::Constructing => true,
            RecvState::Ready(_) => false,
            RecvState::Failed(_) => false,
        }
    }

    /// The headers of the response, once there is a stream.
    #[must_use]
    pub fn headers(&self) -> (headers: Option<&HeaderMap>)
        ensures
            match headers {
                Some(h) => self@ matches RecvView::Ready { stream } && h@ == stream.headers,
                None => !(self@ is Ready),
            },
    {
        match &self.recv {
            RecvState::Ready(stream) => Some(stream.headers()),
            _ => None,
        }
    }

    /// The trailers, once the stream has ended and where any arrived.
    #[must_use]
    pub fn trailers(&self) -> (trailers: Option<&HeaderMap>)
        ensures
            match trailers {
                Some(t) => self@ matches RecvView::Ready { stream } && stream.end matches Some(end) && end.trailers
                    == Some(t@),
                None => self@ matches RecvView::Ready { stream } ==> (stream.end matches Some(end)
                    ==> end.trailers is None),
            },
    {
        match &self.recv {
            RecvState::Ready(stream) => stream.trailers(),
            _ => None,
        }
    }

    /// The error that ended the stream, or that came before there was one.
    #[must_use]
    pub fn error(&self) -> (error: Option<&ConnectError>)
        ensures
            match self@ {
                RecvView::Failed { error: e } => error matches Some(found) && found@ == e,
                RecvView::Ready { stream } => match error {
                    Some(found) => stream.end matches Some(end) && end.outcome == Err::<(), ErrorView>(found@),
                    None => stream.end matches Some(end) ==> end.outcome is Ok,
                },
                _ => error is None,
            },
    {
        match &self.recv {
            RecvState::Ready(stream) => stream.error(),
            RecvState::Failed(e) => Some(e),
            _ => None,
        }
    }
}

/// The error for a task that did not come to its end.
pub fn task_error(what: &str, cause: &str) -> (e: ConnectError)
    ensures
        e@ == plain_error(ErrorCode::Internal, what@ + " task failed: "@ + cause@),
{
    let mut text = what.to_owned();
    text.push_str(" task failed: ");
    text.push_str(cause);
    ConnectError::internal(text)
}

/// Receiving goes one way: a failure stays the failure that it was, and once
/// there is a stream, neither headers nor another stream replace it.
pub proof fn lemma_receiving_goes_one_way(
    state: RecvView,
    outcome: Result<(), ErrorView>,
    made: Result<StreamView, ErrorView>,
)
    ensures
        state is Failed || state is Ready ==> after_headers(state, outcome) == state && after_construction(state, made)
            == state,
        after_headers(after_headers(state, outcome), outcome) == after_headers(state, outcome),
        state is AwaitingHeaders ==> after_construction(state, made) == state,
{
}

// ---------------------------------------------------------------------------
// Both halves
// ---------------------------------------------------------------------------

/// A call that sends requests and receives responses at once.
pub struct BidiStream {
    /// The half that sends.
    pub send: BidiSendHalf,
    /// The half that receives.
    pub recv: BidiRecvHalf,
}

impl BidiStream {
    /// A call that has just begun.
    pub fn new(encoder: EnvelopeEncoder, codec_format: CodecFormat) -> (stream: Self)
        ensures
            stream.send == (BidiSendHalf { open: true, encoder, codec_format }),
            stream.recv@ is AwaitingHeaders,
    {
        BidiStream { send: BidiSendHalf::new(encoder, codec_format), recv: BidiRecvHalf::new() }
    }

    /// The two halves, each on its own.
    #[must_use]
    pub fn into_split(self) -> (halves: (BidiSendHalf, BidiRecvHalf))
        ensures
            halves == (self.send, self.recv),
    {
        (self.send, self.recv)
    }

    /// Send no more.
    pub fn close_send(&mut self)
        ensures
            *final(self) == (BidiStream {
                send: BidiSendHalf { open: false, ..old(self).send },
                recv: old(self).recv,
            }),
    {
        self.send.close_send();
    }

    /// The headers of the response, once there is a stream.
    #[must_use]
    pub fn headers(&self) -> (headers: Option<&HeaderMap>)
        ensures
            match headers {
                Some(h) => self.recv@ matches RecvView::Ready { stream } && h@ == stream.headers,
                None => !(self.recv@ is Ready),
            },
    {
        self.recv.headers()
    }

    /// The trailers, once the stream has ended and where any arrived.
    #[must_use]
    pub fn trailers(&self) -> (trailers: Option<&HeaderMap>)
        ensures
            match trailers {
                Some(t) => self.recv@ matches RecvView::Ready { stream } && stream.end matches Some(end)
                    && end.trailers == Some(t@),
                None => self.recv@ matches RecvView::Ready { stream } ==> (stream.end matches Some(end)
                    ==> end.trailers is None),
            },
    {
        self.recv.trailers()
    }

    /// The error that ended the stream, or that came before there was one.
    #[must_use]
    pub fn error(&self) -> (error: Option<&ConnectError>)
        ensures
            match self.recv@ {
                RecvView::Failed { error: e } => error matches Some(found) && found@ == e,
                RecvView::Ready { stream } => match error {
                    Some(found) => stream.end matches Some(end) && end.outcome == Err::<(), ErrorView>(found@),
                    None => stream.end matches Some(end) ==> end.outcome is Ok,
                },
                _ => error is None,
            },
    {
        self.recv.error()
    }
}

} // verus!
