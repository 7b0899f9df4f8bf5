use jetfeed::frame::{
    binary_content, DecoderError, Frame, FrameContent, FrameDecoder, SkipReason, MAX_DECODED_SIZE,
    MAX_MESSAGE_SIZE,
};

#[test]
fn decoded_size_is_three_messages() {
    assert_eq!(MAX_MESSAGE_SIZE, 25_000);
    assert_eq!(MAX_DECODED_SIZE, MAX_MESSAGE_SIZE * 3);
}

#[test]
fn control_frames_hold_the_same_on_every_stream() {
    for compression in [true, false] {
        let mut decoder = FrameDecoder::new(compression, b"dictionary").unwrap();
        assert_eq!(decoder.decode(Frame::Ping), FrameContent::Ping);
        assert_eq!(decoder.decode(Frame::Pong), FrameContent::Skipped(SkipReason::Pong));
        assert_eq!(decoder.decode(Frame::Close), FrameContent::Skipped(SkipReason::Close));
    }
}

#[test]
fn plain_streams_carry_text() {
    let mut decoder = FrameDecoder::new(false, b"").unwrap();
    assert_eq!(
        decoder.decode(Frame::Text("{}".to_string())),
        FrameContent::Text("{}".to_string())
    );
    assert_eq!(
        decoder.decode(Frame::Binary(vec![1, 2])),
        FrameContent::Skipped(SkipReason::NotText)
    );
}

#[test]
fn compressed_streams_carry_binary() {
    let mut decoder = FrameDecoder::new(true, b"").unwrap();
    let message = zstd::bulk::compress(b"{\"kind\":\"commit\"}", 3).unwrap();
    assert_eq!(
        decoder.decode(Frame::Binary(message)),
        FrameContent::Bytes(b"{\"kind\":\"commit\"}".to_vec())
    );
    assert_eq!(
        decoder.decode(Frame::Text("{}".to_string())),
        FrameContent::Skipped(SkipReason::NotBinary)
    );
}

#[test]
fn dictionary_is_used_for_every_message() {
    let dictionary = b"{\"did\":\"did:plc:aaaa\",\"time_us\":1,\"kind\":\"commit\"}".to_vec();
    let text = b"{\"did\":\"did:plc:aaaa\",\"time_us\":2,\"kind\":\"commit\"}".to_vec();
    let mut compressor = zstd::bulk::Compressor::with_dictionary(3, &dictionary).unwrap();
    let mut decoder = FrameDecoder::new(true, &dictionary).unwrap();
    for _ in 0..3 {
        let message = compressor.compress(&text).unwrap();
        assert_eq!(decoder.decode(Frame::Binary(message)), FrameContent::Bytes(text.clone()));
        assert_eq!(
            decoder.decode(Frame::Binary(vec![9, 9, 9])),
            FrameContent::Skipped(SkipReason::NotDecompressed)
        );
    }
}

#[test]
fn oversized_messages_are_skipped() {
    let mut decoder = FrameDecoder::new(true, b"").unwrap();
    let fits = zstd::bulk::compress(&vec![7u8; MAX_DECODED_SIZE], 3).unwrap();
    assert_eq!(
        decoder.decode(Frame::Binary(fits)),
        FrameContent::Bytes(vec![7u8; MAX_DECODED_SIZE])
    );
    let too_large = zstd::bulk::compress(&vec![7u8; MAX_DECODED_SIZE + 1], 3).unwrap();
    assert_eq!(
        decoder.decode(Frame::Binary(too_large)),
        FrameContent::Skipped(SkipReason::NotDecompressed)
    );
}

#[test]
fn outcome_of_decompression_decides() {
    assert_eq!(binary_content(Ok(vec![1])), FrameContent::Bytes(vec![1]));
    let refused = std::io::Error::new(std::io::ErrorKind::Other, "refused");
    assert_eq!(
        binary_content(Err(refused)),
        FrameContent::Skipped(SkipReason::NotDecompressed)
    );
}

#[test]
fn no_decompressor_no_decoder() {
    let refused = std::io::Error::new(std::io::ErrorKind::Other, "refused");
    let Err(DecoderError::NoDecompressor(cause)) =
        FrameDecoder::with_decompressor(true, Err(refused))
    else {
        panic!("a decoder without a decompressor");
    };
    assert_eq!(cause.to_string(), "refused");
}

#[test]
fn only_a_used_dictionary_can_be_refused() {
    let mut broken = vec![0x37, 0xa4, 0x30, 0xec];
    broken.extend_from_slice(&[0xff; 16]);
    assert!(matches!(FrameDecoder::new(true, &broken), Err(DecoderError::NoDecompressor(_))));
    assert!(FrameDecoder::new(false, &broken).is_ok());
    assert!(FrameDecoder::new(true, b"").is_ok());
    assert!(FrameDecoder::new(false, b"").is_ok());
    assert!(FrameDecoder::new(true, b"any other bytes").is_ok());
}
