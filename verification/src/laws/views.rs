//! Laws on views: nothing is lost between a value and what contracts say of it.
use bytes::Bytes;
use http::HeaderMap;
use vstd::prelude::*;

use crate::buffer::BufferView;
use crate::client::bidi::made_view;
use crate::client::bidi::next_view;
use crate::client::bidi::BidiRecvHalf;
use crate::client::bidi::EncodingBody;
use crate::client::bidi::RecvState;
use crate::client::bidi::RecvView;
use crate::client::body::opt_bytes;
use crate::client::client_stream::scan_view;
use crate::client::client_stream::ClientStreamScan;
use crate::client::config::same_config;
use crate::client::grpc_unary::call_view;
use crate::client::request::makes;
use crate::client::request::opt_str;
use crate::client::request::HeaderList;
use crate::client::status::opt_error;
use crate::client::stream::step_view;
use crate::client::stream::StepView;
use crate::client::stream::StreamEnd;
use crate::client::stream::StreamStep;
use crate::client::trailers::coding_of;
use crate::client::trailers::opt_headers;
use crate::client::ClientConfig;
use crate::client::ServerStream;
use crate::compression::outcome_view;
use crate::compression::read_view;
use crate::compression::CompressionRegistry;
use crate::compression::Outcome;
use crate::compression::ReadOutcome;
use crate::compression::ReadView;
use crate::envelope::encoder::payload_view;
use crate::envelope::encoder::unit_view;
use crate::error::details_view;
use crate::error::opt_text;
use crate::error::ConnectError;
use crate::error::ErrorDetail;
use crate::error::ErrorView;
use crate::headers::collected;
use crate::headers::is_header_value;
use crate::headers::status_number;
use crate::headers::HeadersView;
use crate::response::EncodedBody;
use crate::text::texts;

verus! {

/// Optional values are there in a view exactly where they are there.
pub proof fn law_optional_views(
    text: String,
    slice: &str,
    bytes: Bytes,
    headers: HeaderMap,
    error: ConnectError,
    registry: &CompressionRegistry,
)
    ensures
        opt_text(Some(text)) == Some(text@),
        opt_text(None) is None,
        opt_str(Some(slice)) == Some(slice@),
        opt_str(None) is None,
        opt_bytes(Some(bytes)) == Some(bytes@),
        opt_bytes(None) is None,
        opt_headers(Some(headers)) == Some(headers@),
        opt_headers(None) is None,
        opt_error(Some(error)) == Some(error@),
        opt_error(None) is None,
        coding_of(None) is None,
        coding_of(Some((registry, slice))) is Some,
        coding_of(Some((registry, slice)))->0.registry == registry@,
        coding_of(Some((registry, slice)))->0.encoding == slice@,
{
}

/// A success is one in a view, with all that it gives, and a failure is one with
/// its error.
pub proof fn law_outcome_views(
    bytes: Bytes,
    error: ConnectError,
    headers: HeaderMap,
    trailers: HeaderMap,
    flags: u8,
    read: Vec<u8>,
    cause: String,
    stream: ServerStream,
)
    ensures
        outcome_view(Ok(bytes)) == Outcome::Ok(bytes@),
        outcome_view(Err(error)) == Outcome::Err(error@),
        unit_view(Ok(())) is Ok,
        unit_view(Err(error)) == Err::<(), ErrorView>(error@),
        call_view(Ok((headers, bytes, trailers))) is Ok,
        call_view(Ok((headers, bytes, trailers)))->Ok_0 == (headers@, bytes@, trailers@),
        call_view(Err(error)) is Err,
        call_view(Err(error))->Err_0 == error@,
        payload_view(Ok((flags, bytes))) is Ok,
        payload_view(Ok((flags, bytes)))->Ok_0 == (flags, bytes@),
        payload_view(Err(error)) is Err,
        payload_view(Err(error))->Err_0 == error@,
        read_view(Ok(ReadOutcome::Bytes(read))) == Ok::<ReadView, ErrorView>(ReadView::Bytes(read@)),
        read_view(Ok(ReadOutcome::Failed(cause))) == Ok::<ReadView, ErrorView>(ReadView::Failed(cause@)),
        read_view(Err(error)) == Err::<ReadView, ErrorView>(error@),
        made_view(Ok(stream)) is Ok,
        made_view(Ok(stream))->Ok_0 == stream@,
        made_view(Err(error)) is Err,
        made_view(Err(error))->Err_0 == error@,
        next_view(None) is None,
        next_view(Some(Ok(bytes))) == Some(Outcome::Ok(bytes@)),
        next_view(Some(Err(error))) == Some(Outcome::Err(error@)),
{
}

/// The parts of a scanned body are there in its view.
pub proof fn law_scan_views(scan: ClientStreamScan, error: ConnectError)
    ensures
        scan_view(Ok(scan)) is Ok,
        scan_view(Ok(scan))->Ok_0.message == opt_bytes(scan.message),
        scan_view(Ok(scan))->Ok_0.end_stream == opt_bytes(scan.end_stream),
        scan_view(Err(error)) is Err,
        scan_view(Err(error))->Err_0 == error@,
{
}

/// A step is of one sort in its view as in itself.
pub proof fn law_step_views(bytes: Bytes)
    ensures
        step_view(StreamStep::Message(bytes)) == (StepView::Message { data: bytes@ }),
        step_view(StreamStep::EndStream(bytes)) == (StepView::EndStream { data: bytes@ }),
        step_view(StreamStep::NeedFrame) is NeedFrame,
        step_view(StreamStep::Ended) is Ended,
{
}

/// A terminal record is a clean end in its view exactly where it is one.
pub proof fn law_end_views(end: StreamEnd)
    ensures
        end.outcome is Ok <==> end@.outcome is Ok,
        end.outcome matches Err(e) ==> end@.outcome == Err::<(), ErrorView>(e@),
        end.trailers matches Some(t) ==> end@.trailers == Some(t@),
        end.trailers is None ==> end@.trailers is None,
{
}

/// The view of a stream has what the stream has.
pub proof fn law_stream_views(stream: ServerStream)
    ensures
        stream@.headers == stream.headers@,
        stream@.buffered == stream.buf@,
        stream@.encoding == opt_text(stream.encoding),
        stream@.registry == stream.compression@,
        stream@.codec_format == stream.codec_format,
        stream@.protocol == stream.protocol,
        stream@.max_message_size == stream.max_message_size,
        stream@.saw_body_data == stream.saw_body_data,
        stream.end is None ==> stream@.end is None,
        stream.end matches Some(end) ==> stream@.end == Some(end@),
{
}

/// The view of an error has what the error has.
pub proof fn law_error_views(error: ConnectError, detail: ErrorDetail)
    ensures
        error@.code == error.code,
        error@.message == opt_text(error.message),
        error@.details == details_view(error.details@),
        error.http_status_override is None ==> error@.status is None,
        error.http_status_override matches Some(s) ==> error@.status == Some(status_number(s)),
        error@.headers == (*error.response_headers)@,
        error@.trailers == (*error.trailers)@,
        detail@.type_url == detail.type_url@,
        detail@.value == opt_text(detail.value),
        detail@.debug == detail.debug,
{
}

/// Lists have the views of their items, in order.
pub proof fn law_list_views(details: Seq<ErrorDetail>, list: Seq<String>, i: int)
    ensures
        details_view(details).len() == details.len(),
        0 <= i < details.len() ==> details_view(details)[i] == details[i]@,
        texts(list).len() == list.len(),
        0 <= i < list.len() ==> texts(list)[i] == list[i]@,
{
}

/// The view of a body made of messages, and of a half that receives.
pub proof fn law_bidi_views(body: EncodingBody, half: BidiRecvHalf)
    ensures
        body@.encoder == body.encoder@,
        body@.codec_format == body.codec_format,
        body@.done == body.done,
        body.error is None ==> body@.error is None,
        body.error matches Some(e) ==> body@.error == Some(e@),
        half.recv is AwaitingHeaders ==> half@ is AwaitingHeaders,
        half.recv is Constructing ==> half@ is Constructing,
        half.recv matches RecvState::Ready(stream) ==> half@ == (RecvView::Ready { stream: stream@ }),
        half.recv matches RecvState::Failed(e) ==> half@ == (RecvView::Failed { error: e@ }),
{
}

/// A body has the same bytes in one segment as in several.
pub proof fn law_body_contents(bytes: Bytes, segments: Vec<Bytes>)
    ensures
        EncodedBody::Contiguous(bytes).content() == bytes@,
        EncodedBody::Segmented(segments).content() == crate::response::segment_bytes(segments@),
        crate::response::segment_bytes(Seq::empty()) == Seq::<u8>::empty(),
{
    crate::response::lemma_single_segment(bytes);
}

/// Headers are made of a list exactly where all its values are header values,
/// and then they are those of the list.
pub proof fn law_made_headers(list: HeaderList, headers: Option<HeaderMap>)
    requires
        makes(list, headers),
    ensures
        headers is Some <==> forall|i: int| 0 <= i < list.len() ==> is_header_value((#[trigger] list[i]).1.0),
        headers matches Some(h) ==> h@ == collected(list),
{
}

/// A copy of a configuration sets what the configuration sets.
pub proof fn law_copied_configuration(a: ClientConfig, b: ClientConfig)
    requires
        same_config(a, b),
    ensures
        crate::client::request::uri_text(a.base_uri) == crate::client::request::uri_text(b.base_uri),
        a.protocol == b.protocol,
        a.codec_format == b.codec_format,
        a.compression@ == b.compression@,
        a.compression.names() == b.compression.names(),
        opt_text(a.request_compression) == opt_text(b.request_compression),
        a.compression_policy == b.compression_policy,
        a.default_timeout == b.default_timeout,
        a.default_max_message_size == b.default_max_message_size,
        a.default_headers@ == b.default_headers@,
{
}

} // verus!
