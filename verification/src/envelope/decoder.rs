//! Decoding of streamed requests.
use bytes::Bytes;
use std::sync::Arc;
use vstd::prelude::*;

use super::assembler::kind_for;
use super::assembler::limit_for;
use super::assembler::scanned_under;
use super::assembler::EnvelopeAssembler;
use super::assembler::Limits;
use super::marks_compressed;
use super::marks_end_stream;
use super::over_limit_text;
use super::Scan;
use super::HEADER_SIZE;
use crate::buffer::BufferView;
use crate::compression::registry::registry_decompresses;
use crate::compression::registry::RegistryView;
use crate::compression::CompressionRegistry;
use crate::compression::Outcome;
use crate::error::plain_error;
use crate::error::ConnectError;
use crate::error::ErrorCode;
use crate::text::str_eq;

verus! {

/// One item decoded from a streaming request body.
#[derive(Debug)]
pub enum Decoded {
    /// A message.
    Message(Bytes),
    /// The END_STREAM envelope: terminal. Any further body data is trailing
    /// garbage to drain or reject, never to decode.
    EndStream,
}

/// Decoder for envelope-framed messages on a streaming request: an
/// [`EnvelopeAssembler`] plus END_STREAM detection and per-message
/// decompression.
pub struct EnvelopeDecoder {
    assembler: EnvelopeAssembler,
    streaming_encoding: Option<String>,
    compression: Arc<CompressionRegistry>,
}

/// What an envelope of a request comes to.
pub open spec fn request_item(
    registry: RegistryView,
    encoding: Option<Seq<char>>,
    max: nat,
    flags: u8,
    payload: Seq<u8>,
    outcome: Result<Option<Decoded>, ConnectError>,
) -> bool {
    if marks_end_stream(flags) {
        outcome matches Ok(Some(Decoded::EndStream))
    } else if !marks_compressed(flags) {
        outcome matches Ok(Some(Decoded::Message(data))) && data@ == payload
    } else {
        match encoding {
            Some(name) if name != "identity"@ => match outcome {
                Ok(Some(Decoded::Message(data))) => registry_decompresses(
                    registry,
                    name,
                    payload,
                    max,
                    Outcome::Ok(data@),
                ),
                Err(e) => registry_decompresses(registry, name, payload, max, Outcome::Err(e@)),
                _ => false,
            },
            _ => outcome matches Err(e) && e@ == plain_error(
                ErrorCode::Internal,
                "received compressed message without connect-content-encoding header"@,
            ),
        }
    }
}

impl EnvelopeDecoder {
    /// The decoder can take bytes.
    pub closed spec fn inv(&self) -> bool {
        self.assembler.inv()
    }

    /// The bytes received of the envelope that is not complete yet.
    pub closed spec fn pending(&self) -> Seq<u8> {
        self.assembler.pending()
    }

    /// The limits that frames are held to.
    pub closed spec fn limits(&self) -> Limits {
        self.assembler.limits()
    }

    /// The encoding that the request announced.
    pub closed spec fn encoding(&self) -> Option<Seq<char>> {
        match self.streaming_encoding {
            Some(s) => Some(s@),
            None => None,
        }
    }

    /// The registry that messages are decompressed with.
    pub closed spec fn registry(&self) -> RegistryView {
        self.compression@
    }

    /// A decoder that has received nothing.
    pub fn new(
        max_message_size: usize,
        streaming_encoding: Option<String>,
        compression: Arc<CompressionRegistry>,
    ) -> (decoder: Self)
        ensures
            decoder.inv(),
            decoder.pending() == Seq::<u8>::empty(),
            decoder.limits() == (Limits { message: max_message_size as nat, trailer: None }),
            decoder.encoding() == (match streaming_encoding {
                Some(s) => Some(s@),
                None => None,
            }),
            decoder.registry() == compression@,
    {
        EnvelopeDecoder {
            assembler: EnvelopeAssembler::new(max_message_size),
            streaming_encoding,
            compression,
        }
    }

    /// Consume bytes from `frame` until one message or END_STREAM is decoded
    /// (`Ok(Some)`; call again for the rest of the frame, which after
    /// END_STREAM is trailing bytes) or the frame is exhausted (`Ok(None)`).
    pub fn decode(&mut self, frame: &mut Bytes) -> (outcome: Result<Option<Decoded>, ConnectError>)
        requires
            old(self).inv(),
        ensures
            final(self).limits() == old(self).limits(),
            final(self).encoding() == old(self).encoding(),
            final(self).registry() == old(self).registry(),
            match scanned_under(old(self).pending() + old(frame)@, old(self).limits()) {
                Scan::Partial => outcome matches Ok(None) && final(self).inv() && final(self).pending()
                    == old(self).pending() + old(frame)@ && final(frame)@ == Seq::<u8>::empty(),
                Scan::TooLarge { length } => outcome matches Err(e) && e@ == plain_error(
                    ErrorCode::ResourceExhausted,
                    over_limit_text(
                        kind_for(old(self).limits(), (old(self).pending() + old(frame)@)[0]),
                        length,
                        limit_for(old(self).limits(), (old(self).pending() + old(frame)@)[0]),
                    ),
                ) && final(frame)@ == (old(self).pending() + old(frame)@).skip(HEADER_SIZE as int),
                Scan::Whole { flags, payload, rest } => request_item(
                    old(self).registry(),
                    old(self).encoding(),
                    old(self).limits().message,
                    flags,
                    payload,
                    outcome,
                ) && final(self).inv() && final(self).pending() == Seq::<u8>::empty() && final(frame)@ == rest,
            },
    {
        let envelope = match self.assembler.feed(frame) {
            Ok(Some(envelope)) => envelope,
            Ok(None) => return Ok(None),
            Err(e) => return Err(e),
        };
        if envelope.is_end_stream() {
            return Ok(Some(Decoded::EndStream));
        }
        if !envelope.is_compressed() {
            return Ok(Some(Decoded::Message(envelope.data)));
        }
        if let Some(encoding) = &self.streaming_encoding {
            if !str_eq(encoding.as_str(), "identity") {
                let max_size: usize = self.assembler.max_message_size();
                return match self.compression.decompress_with_limit(encoding.as_str(), envelope.data, max_size) {
                    Ok(data) => Ok(Some(Decoded::Message(data))),
                    Err(e) => Err(e),
                };
            }
        }
        Err(ConnectError::internal("received compressed message without connect-content-encoding header"))
    }

    /// The body ended. A client may close the HTTP body without sending an
    /// END_STREAM envelope, but ending part-way through an envelope is an
    /// error.
    pub fn finish(&self) -> (r: Result<(), ConnectError>)
        requires
            self.inv(),
        ensures
            match r {
                Ok(()) => self.pending().len() == 0,
                Err(e) => self.pending().len() > 0 && e@ == plain_error(
                    ErrorCode::InvalidArgument,
                    "incomplete request envelope"@,
                ),
            },
    {
        if self.assembler.has_partial() {
            return Err(ConnectError::invalid_argument("incomplete request envelope"));
        }
        Ok(())
    }
}

} // verus!
