use dictate_core::audio::{
    capture_step_i16, capture_step_u16, encode_frame_i16, encode_frame_u16, recenter_u16,
    stream_request, AudioError, SampleFormat, TARGET_CHANNELS, TARGET_SAMPLE_RATE,
};

#[test]
fn signed_samples_encode_little_endian() {
    let frame = encode_frame_i16(&vec![0, 1, -1, 258, -32768, 32767]);
    assert_eq!(
        frame,
        vec![0, 0, 1, 0, 255, 255, 2, 1, 0, 128, 255, 127]
    );
}

#[test]
fn unsigned_samples_are_recentered_before_encoding() {
    assert_eq!(recenter_u16(32768), 0);
    assert_eq!(recenter_u16(0), -32768);
    assert_eq!(recenter_u16(65535), 32767);
    let frame = encode_frame_u16(&vec![32768, 0, 65535]);
    assert_eq!(frame, vec![0, 0, 0, 128, 255, 127]);
}

#[test]
fn capture_discards_after_stop_observation() {
    assert_eq!(capture_step_i16(true, &vec![1, 2, 3]), None);
    assert_eq!(capture_step_u16(true, &vec![1, 2, 3]), None);
}

#[test]
fn capture_skips_empty_batches() {
    assert_eq!(capture_step_i16(false, &vec![]), None);
    assert_eq!(capture_step_u16(false, &vec![]), None);
}

#[test]
fn capture_queues_converted_frames() {
    assert_eq!(capture_step_i16(false, &vec![1]), Some(vec![1, 0]));
    assert_eq!(capture_step_u16(false, &vec![32769]), Some(vec![1, 0]));
}

#[test]
fn unsupported_native_format_fails_fast() {
    assert_eq!(stream_request(SampleFormat::Other), Err(AudioError::UnsupportedFormat));
}

#[test]
fn supported_formats_request_target_rate_and_mono() {
    for f in [SampleFormat::F32, SampleFormat::I16, SampleFormat::U16] {
        let req = stream_request(f).unwrap();
        assert_eq!(req.sample_rate, TARGET_SAMPLE_RATE);
        assert_eq!(req.sample_rate, 16000);
        assert_eq!(req.channels, TARGET_CHANNELS);
        assert_eq!(req.channels, 1);
    }
}
