use intercom::codec::{check_frame, decoder_rate, encoder_rate, CodecError, EncodedFrame, OpusRate};

#[test]
fn test_encoded_frame() {
    let frame = EncodedFrame::new(vec![1, 2, 3], 480).with_voice(true);
    assert_eq!(frame.data, vec![1, 2, 3]);
    assert_eq!(frame.samples, 480);
    assert!(frame.has_voice);
}

#[test]
fn encoded_frame_voice_flag_can_be_cleared() {
    let frame = EncodedFrame::new(vec![4], 960);
    assert!(frame.has_voice);
    let frame = frame.with_voice(false);
    assert!(!frame.has_voice);
    assert_eq!(frame.samples, 960);
}

#[test]
fn codec_error_messages() {
    assert_eq!(CodecError::InvalidFrameSize(100).message(), "Invalid frame size: 100");
    assert_eq!(
        CodecError::BufferTooSmall { needed: 4000, available: 12 }.message(),
        "Buffer too small: need 4000, have 12"
    );
    assert_eq!(CodecError::Encoding("bad".to_string()).message(), "Encoding error: bad");
}

#[test]
fn opus_rates_and_frames() {
    assert_eq!(encoder_rate(48000).unwrap(), OpusRate::Hz48000);
    assert_eq!(decoder_rate(8000).unwrap(), OpusRate::Hz8000);
    match encoder_rate(44100) {
        Err(CodecError::EncoderCreation(m)) => assert_eq!(m, "Unsupported sample rate: 44100"),
        other => panic!("unexpected: {:?}", other),
    }
    assert!(matches!(decoder_rate(11025), Err(CodecError::DecoderCreation(_))));
    assert!(check_frame(480, 480).is_ok());
    assert!(matches!(check_frame(100, 480), Err(CodecError::InvalidFrameSize(100))));
}
