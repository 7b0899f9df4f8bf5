//! Websocket frames, and the event text that they carry.

use vstd::prelude::*;
use zstd::bulk::Decompressor;

verus! {

/// The largest message that the stream is asked to send, in bytes.
pub const MAX_MESSAGE_SIZE: usize = 25000;

/// The largest event text that is accepted from a compressed message: three
/// times the size of a message.
pub const MAX_DECODED_SIZE: usize = MAX_MESSAGE_SIZE * 3;

/// A decompressor of `zstd`, which keeps the dictionary it was made with.
#[verifier::external_type_specification]
#[verifier::external_body]
pub struct ExDecompressor<'a>(Decompressor<'a>);

/// The error type of `std::io`, by which `zstd` reports what it refuses.
#[verifier::external_type_specification]
#[verifier::external_body]
pub struct ExIoError(std::io::Error);

/// The dictionary that a decompressor holds.
pub uninterp spec fn dictionary_in(decompressor: Decompressor<'static>) -> Seq<u8>;

/// Whether `zstd` takes these bytes as a dictionary.
pub uninterp spec fn takes_dictionary(dictionary: Seq<u8>) -> bool;

/// What `zstd` makes of a compressed message with a dictionary, within a
/// number of bytes: the content, or nothing where it refuses the message.
pub uninterp spec fn decompressed(dictionary: Seq<u8>, message: Seq<u8>, capacity: nat) -> Option<
    Seq<u8>,
>;

/// Calls `zstd::bulk::Decompressor::new`. The contract claims that it gives a
/// decompressor, which holds the empty dictionary: with no dictionary to load
/// there is nothing that `zstd` could refuse, and a lack of memory is not
/// among the errors it returns here.
#[verifier::external_body]
fn plain_decompressor() -> (made: Result<Decompressor<'static>, std::io::Error>)
    ensures
        made is Ok,
        made matches Ok(decompressor) ==> dictionary_in(decompressor) == Seq::<u8>::empty(),
{
    Decompressor::new()
}

/// Calls `zstd::bulk::Decompressor::with_dictionary`. The contract claims that
/// whether a dictionary is taken depends on its bytes alone, that the empty
/// one is taken, and that the new decompressor holds the given dictionary. A
/// lack of memory is left out of account.
#[verifier::external_body]
fn dictionary_decompressor(dictionary: &[u8]) -> (made: Result<
    Decompressor<'static>,
    std::io::Error,
>)
    ensures
        made matches Ok(decompressor) ==> dictionary_in(decompressor) == dictionary@,
        made is Ok <==> takes_dictionary(dictionary@),
        dictionary@.len() == 0 ==> made is Ok,
{
    Decompressor::with_dictionary(dictionary)
}

/// Calls `zstd::bulk::Decompressor::decompress`. The contract claims that the
/// decompressor keeps its dictionary, that the outcome depends on that
/// dictionary, the message and the capacity alone, and that no more than
/// `capacity` bytes are given back. A lack of memory is left out of account.
#[verifier::external_body]
fn decompress(
    decompressor: &mut Decompressor<'static>,
    message: &[u8],
    capacity: usize,
) -> (content: Result<Vec<u8>, std::io::Error>)
    requires
        capacity <= isize::MAX,
    ensures
        dictionary_in(*final(decompressor)) == dictionary_in(*old(decompressor)),
        content matches Ok(bytes) ==> bytes@.len() <= capacity && decompressed(
            dictionary_in(*old(decompressor)),
            message@,
            capacity as nat,
        ) == Some(bytes@),
        content is Err ==> decompressed(
            dictionary_in(*old(decompressor)),
            message@,
            capacity as nat,
        ) is None,
{
    decompressor.decompress(message, capacity)
}

/// A message as it comes from the websocket.
#[derive(Debug, PartialEq, Eq)]
pub enum Frame {
    Ping,
    Pong,
    Close,
    Text(String),
    Binary(Vec<u8>),
}

/// Why a frame holds nothing to process.
#[derive(Debug, Clone, Copy, PartialEq, Eq, Structural)]
pub enum SkipReason {
    Pong,
    Close,
    /// The stream is compressed, and the message is not binary.
    NotBinary,
    /// The stream is not compressed, and the message is not text.
    NotText,
    /// The message could not be decompressed.
    NotDecompressed,
}

/// What a frame holds for the consumer.
#[derive(Debug, PartialEq, Eq)]
pub enum FrameContent {
    /// A ping, which wants its answer flushed.
    Ping,
    /// Nothing to process.
    Skipped(SkipReason),
    /// The bytes of an event.
    Bytes(Vec<u8>),
    /// The text of an event.
    Text(String),
}

/// Why no decoder can be had.
#[derive(Debug)]
pub enum DecoderError {
    /// `zstd` gave no decompressor, for this reason.
    NoDecompressor(std::io::Error),
}

/// What a decompressed message holds, given the outcome of decompressing it.
pub fn binary_content(decompressed: Result<Vec<u8>, std::io::Error>) -> (content: FrameContent)
    ensures
        content == match decompressed {
            Ok(bytes) => FrameContent::Bytes(bytes),
            Err(_) => FrameContent::Skipped(SkipReason::NotDecompressed),
        },
{
    match decompressed {
        Ok(bytes) => FrameContent::Bytes(bytes),
        Err(_) => FrameContent::Skipped(SkipReason::NotDecompressed),
    }
}

/// Whether `content` is what a frame holds. Control frames are never
/// compressed: what they hold does not depend on the stream.
pub open spec fn holds(
    compression: bool,
    dictionary: Seq<u8>,
    frame: Frame,
    content: FrameContent,
) -> bool {
    match frame {
        Frame::Ping => content is Ping,
        Frame::Pong => content == FrameContent::Skipped(SkipReason::Pong),
        Frame::Close => content == FrameContent::Skipped(SkipReason::Close),
        Frame::Text(text) => if compression {
            content == FrameContent::Skipped(SkipReason::NotBinary)
        } else {
            content == FrameContent::Text(text)
        },
        Frame::Binary(message) => if compression {
            match decompressed(dictionary, message@, MAX_DECODED_SIZE as nat) {
                Some(bytes) => content matches FrameContent::Bytes(held) && held@ == bytes,
                None => content == FrameContent::Skipped(SkipReason::NotDecompressed),
            }
        } else {
            content == FrameContent::Skipped(SkipReason::NotText)
        },
    }
}

/// Reads the frames of one connection.
pub struct FrameDecoder {
    compression: bool,
    decompressor: Decompressor<'static>,
}

impl FrameDecoder {
    /// Whether the stream is compressed.
    pub closed spec fn compression(&self) -> bool {
        self.compression
    }

    /// The dictionary that messages are decompressed with.
    pub closed spec fn dictionary(&self) -> Seq<u8> {
        dictionary_in(self.decompressor)
    }

    /// A decoder around a decompressor, if there is one.
    pub fn with_decompressor(
        compression: bool,
        made: Result<Decompressor<'static>, std::io::Error>,
    ) -> (decoder: Result<FrameDecoder, DecoderError>)
        ensures
            match made {
                Ok(decompressor) => decoder matches Ok(decoder) && decoder.compression()
                    == compression && decoder.dictionary() == dictionary_in(decompressor),
                Err(error) => decoder == Err::<FrameDecoder, _>(
                    DecoderError::NoDecompressor(error),
                ),
            },
    {
        match made {
            Ok(decompressor) => Ok(FrameDecoder { compression, decompressor }),
            Err(error) => Err(DecoderError::NoDecompressor(error)),
        }
    }

    /// A decoder for a stream. The dictionary counts only where the stream is
    /// compressed; there is no decoder only where such a dictionary is not
    /// taken.
    pub fn new(compression: bool, dictionary: &[u8]) -> (decoder: Result<
        FrameDecoder,
        DecoderError,
    >)
        ensures
            decoder matches Ok(decoder) ==> {
                &&& decoder.compression() == compression
                &&& decoder.dictionary() == if compression {
                    dictionary@
                } else {
                    Seq::<u8>::empty()
                }
            },
            decoder is Ok <==> !compression || takes_dictionary(dictionary@),
            dictionary@.len() == 0 ==> decoder is Ok,
    {
        if compression {
            FrameDecoder::with_decompressor(compression, dictionary_decompressor(dictionary))
        } else {
            FrameDecoder::with_decompressor(compression, plain_decompressor())
        }
    }

    /// Reads one frame.
    pub fn decode(&mut self, frame: Frame) -> (content: FrameContent)
        ensures
            final(self).compression() == old(self).compression(),
            final(self).dictionary() == old(self).dictionary(),
            holds(old(self).compression(), old(self).dictionary(), frame, content),
            content matches FrameContent::Bytes(bytes) ==> bytes@.len() <= MAX_DECODED_SIZE,
    {
        match frame {
            Frame::Ping => FrameContent::Ping,
            Frame::Pong => FrameContent::Skipped(SkipReason::Pong),
            Frame::Close => FrameContent::Skipped(SkipReason::Close),
            Frame::Text(text) => {
                if self.compression {
                    FrameContent::Skipped(SkipReason::NotBinary)
                } else {
                    FrameContent::Text(text)
                }
            },
            Frame::Binary(message) => {
                if self.compression {
                    binary_content(
                        decompress(&mut self.decompressor, message.as_slice(), MAX_DECODED_SIZE),
                    )
                } else {
                    FrameContent::Skipped(SkipReason::NotText)
                }
            },
        }
    }
}

/// A control frame holds the same on every stream, and never an event.
pub proof fn law_control_frames_ignore_compression(
    dictionary: Seq<u8>,
    other_dictionary: Seq<u8>,
    frame: Frame,
    content: FrameContent,
)
    requires
        frame is Ping || frame is Pong || frame is Close,
    ensures
        holds(true, dictionary, frame, content) <==> holds(
            false,
            other_dictionary,
            frame,
            content,
        ),
        holds(true, dictionary, frame, content) ==> content is Ping || content is Skipped,
{
}

/// On a plain stream every text frame holds its own text, whatever that is: no
/// text is skipped there.
pub proof fn law_plain_stream_keeps_every_text(
    decoder: &mut FrameDecoder,
    text: String,
    content: FrameContent,
)
    requires
        call_ensures(FrameDecoder::decode, (decoder, Frame::Text(text)), content),
        !old(decoder).compression(),
    ensures
        content == FrameContent::Text(text),
{
}

/// On a compressed stream every binary frame holds what `zstd` makes of it with
/// the dictionary, and is skipped only where `zstd` refuses it.
pub proof fn law_compressed_stream_keeps_every_message(
    decoder: &mut FrameDecoder,
    message: Vec<u8>,
    content: FrameContent,
)
    requires
        call_ensures(FrameDecoder::decode, (decoder, Frame::Binary(message)), content),
        old(decoder).compression(),
    ensures
        match decompressed(old(decoder).dictionary(), message@, 75000) {
            Some(bytes) => content matches FrameContent::Bytes(held) && held@ == bytes
                && bytes.len() <= 75000,
            None => content == FrameContent::Skipped(SkipReason::NotDecompressed),
        },
{
}

/// A frame of the wrong kind is skipped: a text on a compressed stream, and a
/// binary message on a plain one.
pub proof fn law_unexpected_frames_are_skipped(
    decoder: &mut FrameDecoder,
    frame: Frame,
    content: FrameContent,
)
    requires
        call_ensures(FrameDecoder::decode, (decoder, frame), content),
        frame is Text && old(decoder).compression() || frame is Binary && !old(decoder).compression(),
    ensures
        content == FrameContent::Skipped(
            if frame is Text {
                SkipReason::NotBinary
            } else {
                SkipReason::NotText
            },
        ),
{
}

/// A control frame is known as such on every stream.
pub proof fn law_control_frames_are_known(
    decoder: &mut FrameDecoder,
    frame: Frame,
    content: FrameContent,
)
    requires
        call_ensures(FrameDecoder::decode, (decoder, frame), content),
    ensures
        content is Ping <==> frame is Ping,
        content == FrameContent::Skipped(SkipReason::Pong) <==> frame is Pong,
        content == FrameContent::Skipped(SkipReason::Close) <==> frame is Close,
{
}

/// Reading a frame changes nothing that the next one depends on.
pub proof fn law_frames_are_read_independently(
    decoder: &mut FrameDecoder,
    frame: Frame,
    content: FrameContent,
)
    requires
        call_ensures(FrameDecoder::decode, (decoder, frame), content),
    ensures
        final(decoder).compression() == old(decoder).compression(),
        final(decoder).dictionary() == old(decoder).dictionary(),
{
}

/// A decoder is for the stream that it was asked for, and has the dictionary
/// where that stream is compressed. One that is plain can always be had.
pub proof fn law_decoder_is_for_its_stream(
    compression: bool,
    dictionary: &[u8],
    decoder: Result<FrameDecoder, DecoderError>,
)
    requires
        call_ensures(FrameDecoder::new, (compression, dictionary), decoder),
    ensures
        !compression ==> decoder is Ok,
        compression ==> (decoder is Ok <==> takes_dictionary(dictionary@)),
        decoder matches Ok(decoder) ==> decoder.compression() == compression,
        decoder matches Ok(decoder) ==> compression ==> decoder.dictionary() == dictionary@,
        decoder matches Ok(decoder) ==> !compression ==> decoder.dictionary().len() == 0,
{
}

/// A decoder is made of every decompressor, and keeps it; the error by which
/// there is none is handed on.
pub proof fn law_decoder_keeps_its_decompressor(
    compression: bool,
    made: Result<Decompressor<'static>, std::io::Error>,
    decoder: Result<FrameDecoder, DecoderError>,
)
    requires
        call_ensures(FrameDecoder::with_decompressor, (compression, made), decoder),
    ensures
        made is Ok <==> decoder is Ok,
        made matches Err(error) ==> decoder matches Err(DecoderError::NoDecompressor(given))
            && given == error,
        decoder matches Ok(decoder) ==> decoder.compression() == compression && decoder.dictionary()
            == dictionary_in(made->Ok_0),
{
}

/// Whatever was decompressed is handed on byte for byte, and only a refused
/// message is skipped.
pub proof fn law_decompressed_bytes_are_kept(
    outcome: Result<Vec<u8>, std::io::Error>,
    content: FrameContent,
)
    requires
        call_ensures(binary_content, (outcome,), content),
    ensures
        outcome matches Ok(bytes) ==> content == FrameContent::Bytes(bytes),
        outcome is Err ==> content == FrameContent::Skipped(SkipReason::NotDecompressed),
{
}

} // verus!
