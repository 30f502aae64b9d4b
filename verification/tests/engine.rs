use demod_bt::engine::{
    after_read, capture_input, clamp_volume, finish_output, goes_on_after_write, render_output,
    BtReader, BtWriter, EngineError, ReadAction, ReadOutcome, WriteOutcome,
};
use demod_bt::sbc_ffi::{SbcContext, SbcError};
use demod_bt::transport::{
    AudioConfig, AudioPipeline, StreamDirection, StreamMetrics, TransportError,
};

fn reader(frame_len: usize, codesize: usize) -> BtReader {
    BtReader::open(SbcContext::from_a2dp_config(0), frame_len, codesize).unwrap()
}

#[test]
fn ring_is_sized_by_the_jitter_buffer() {
    let mut config = AudioConfig::default();
    assert_eq!(config.direction, StreamDirection::Sink);
    let p = AudioPipeline::new(config.clone());
    // 44100 * 2 * 40 / 1000 is too small.
    assert_eq!(p.buffer_samples(), 4096);
    config.jitter_buffer_ms = 100;
    let p = AudioPipeline::new(config);
    assert_eq!(p.buffer_samples(), 8820);
}

#[test]
fn every_session_has_its_own_ring() {
    let mut p = AudioPipeline::new(AudioConfig::default());
    p.metrics.overruns = 3;
    p.metrics.running = true;
    assert_eq!(p.metrics().snapshot().running, 1);
    let (mut producer, _consumer) = p.create_stream_buffers();
    assert_eq!(p.generation(), 1);
    assert_eq!(p.metrics(), StreamMetrics::new());
    assert_eq!(p.metrics().snapshot().running, 0);
    assert!(capture_input(&mut producer, &[1, 2, 3]));
    let (_producer, mut consumer) = p.create_stream_buffers();
    assert_eq!(p.generation(), 2);
    let mut out = [9i16; 2];
    assert_eq!(render_output(&mut consumer, &mut out, 127).filled, 0);
    assert_eq!(out, [0, 0]);
}

#[test]
fn packets_of_the_pipeline() {
    let mut p = AudioPipeline::new(AudioConfig::default());
    let wire = p.packetize_audio(&[7u8; 119]);
    assert_eq!(wire.len(), 1);
    assert_eq!(wire[0].len(), 17 + 7 + 119);
    assert_eq!(p.dcf_transport().sequence(), 1);
}

#[test]
fn samples_come_out_in_order() {
    let mut p = AudioPipeline::new(AudioConfig::default());
    let (mut producer, mut consumer) = p.create_stream_buffers();
    assert!(capture_input(&mut producer, &[1, 2, 3]));
    assert!(capture_input(&mut producer, &[4, 5]));
    let mut out = [0i16; 3];
    let r = render_output(&mut consumer, &mut out, 127);
    assert_eq!(out, [1, 2, 3]);
    assert_eq!((r.filled, r.played, r.starved, r.level), (3, true, false, 2));
    let mut out = [9i16; 3];
    let r = render_output(&mut consumer, &mut out, 127);
    assert_eq!(out, [4, 5, 0]);
    assert_eq!((r.filled, r.played, r.starved, r.level), (2, true, true, 0));
    let mut out = [9i16; 3];
    let r = render_output(&mut consumer, &mut out, 127);
    assert_eq!(out, [0, 0, 0]);
    assert_eq!((r.filled, r.played, r.starved, r.level), (0, false, true, 0));
}

#[test]
fn samples_wrap_around_the_ring() {
    let mut p = AudioPipeline::new(AudioConfig::default());
    let (mut producer, mut consumer) = p.create_stream_buffers();
    let mut next_in = 0i16;
    let mut next_out = 0i16;
    for _ in 0..10 {
        let block: Vec<i16> = (0..3000).map(|i| next_in.wrapping_add(i)).collect();
        next_in = next_in.wrapping_add(3000);
        assert!(capture_input(&mut producer, &block));
        let mut out = vec![0i16; 3000];
        assert_eq!(render_output(&mut consumer, &mut out, 127).filled, 3000);
        for s in out {
            assert_eq!(s, next_out);
            next_out = next_out.wrapping_add(1);
        }
    }
}

#[test]
fn a_full_ring_takes_nothing() {
    let mut p = AudioPipeline::new(AudioConfig::default());
    let (mut producer, mut consumer) = p.create_stream_buffers();
    assert!(!capture_input(&mut producer, &[1i16; 4097]));
    assert!(capture_input(&mut producer, &[1i16; 4096]));
    assert!(!capture_input(&mut producer, &[2i16]));
    assert!(capture_input(&mut producer, &[]));
    let mut out = [0i16; 1];
    assert_eq!(render_output(&mut consumer, &mut out, 127).level, 4095);
}

#[test]
fn volume_scaling() {
    assert_eq!(clamp_volume(200), 127);
    assert_eq!(clamp_volume(64), 64);
    let mut data = [1000i16, -1000, 32767, -32768, 5];
    finish_output(&mut data, 4, 64);
    assert_eq!(data, [503, -503, 16512, -16513, 0]);
    let mut data = [1000i16, -1000];
    finish_output(&mut data, 2, 0);
    assert_eq!(data, [0, 0]);
    let mut data = [1000i16, -1000];
    finish_output(&mut data, 2, 500);
    assert_eq!(data, [1000, -1000]);
}

#[test]
fn read_outcomes() {
    assert_eq!(after_read(ReadOutcome::Bytes(0)), ReadAction::Stop);
    assert_eq!(after_read(ReadOutcome::Bytes(5)), ReadAction::Decode);
    assert_eq!(after_read(ReadOutcome::Interrupted), ReadAction::Retry);
    assert_eq!(after_read(ReadOutcome::WouldBlock), ReadAction::Yield);
    assert_eq!(after_read(ReadOutcome::Failed), ReadAction::Stop);
    assert!(goes_on_after_write(WriteOutcome::Done));
    assert!(goes_on_after_write(WriteOutcome::Failed));
    assert!(!goes_on_after_write(WriteOutcome::BrokenPipe));
}

#[test]
fn reader_needs_a_codec() {
    let r = BtReader::open(SbcContext::from_a2dp_config(-9), 0, 0);
    assert_eq!(r.unwrap_err().message(), "Codec initialization failed: SBC init code -9");
    let r = BtWriter::open(SbcContext::from_a2dp_config(-9), 0, 0);
    assert!(r.is_err());
}

#[test]
fn reader_keeps_leftover_bytes() {
    let mut p = AudioPipeline::new(AudioConfig::default());
    let (mut producer, mut consumer) = p.create_stream_buffers();
    let mut r = reader(4, 8);
    assert_eq!(r.pcm_room(), 16);
    r.feed(&[1, 2, 3]);
    assert!(!r.frame_ready());
    r.feed(&[4, 5]);
    assert!(r.frame_ready());
    assert_eq!(r.window(), &[1, 2, 3, 4, 5]);
    assert!(!r.accept(Ok((4, &[10, 0, 20, 0])), &mut producer));
    assert_eq!(r.window(), &[5]);
    assert!(!r.frame_ready());
    let mut out = [0i16; 2];
    render_output(&mut consumer, &mut out, 127);
    assert_eq!(out, [10, 20]);
}

#[test]
fn reader_conceals_errors() {
    let mut p = AudioPipeline::new(AudioConfig::default());
    let (mut producer, mut consumer) = p.create_stream_buffers();
    let mut r = reader(2, 8);
    r.feed(&[1, 2, 3, 4, 5]);
    assert!(!r.accept(Ok((2, &[100, 0, 200, 0])), &mut producer));
    assert!(!r.accept(Err(SbcError::DecodeFailed(-1)), &mut producer));
    assert_eq!(r.loss_count(), 1);
    assert_eq!(r.window(), &[4, 5]);
    let mut out = [0i16; 4];
    render_output(&mut consumer, &mut out, 127);
    assert_eq!(out, [100, 200, 50, 100]);
    // A frame without samples leaves the ring alone.
    assert!(!r.accept(Ok((1, &[])), &mut producer));
    assert_eq!(r.window(), &[5]);
    assert_eq!(render_output(&mut consumer, &mut out, 127).filled, 0);
}

#[test]
fn reader_conceals_once_per_lost_frame() {
    let mut p = AudioPipeline::new(AudioConfig::default());
    let (mut producer, mut consumer) = p.create_stream_buffers();
    let mut r = reader(4, 8);
    r.feed(&[0; 40]);
    r.accept(Ok((4, &[64, 0])), &mut producer);
    let mut concealed = Vec::new();
    for _ in 0..9 {
        let before = r.loss_count();
        assert!(!r.accept(Err(SbcError::DecodeFailed(-1)), &mut producer));
        concealed.push(r.loss_count() - before);
    }
    // Nine skipped bytes are two frames and the beginning of a third.
    assert_eq!(concealed, vec![1, 0, 0, 0, 1, 0, 0, 0, 1]);
    assert_eq!(r.window().len(), 27);
    let mut out = [9i16; 6];
    assert_eq!(render_output(&mut consumer, &mut out, 127).filled, 4);
    assert_eq!(out, [64, 32, 16, 8, 0, 0]);
    // Once a frame was found again, the next error is another loss.
    r.accept(Ok((4, &[100, 0])), &mut producer);
    r.accept(Err(SbcError::DecodeFailed(-1)), &mut producer);
    r.accept(Ok((4, &[])), &mut producer);
    r.accept(Err(SbcError::DecodeFailed(-1)), &mut producer);
    assert_eq!(r.loss_count(), 2);
    let mut out = [9i16; 3];
    assert_eq!(render_output(&mut consumer, &mut out, 127).filled, 3);
    assert_eq!(out, [100, 50, 25]);
}

#[test]
fn reader_without_a_good_frame_conceals_with_silence() {
    let mut p = AudioPipeline::new(AudioConfig::default());
    let (mut producer, mut consumer) = p.create_stream_buffers();
    let mut r = reader(1, 4);
    r.feed(&[1]);
    assert!(!r.accept(Err(SbcError::DecodeFailed(-1)), &mut producer));
    let mut out = [9i16; 10];
    let report = render_output(&mut consumer, &mut out, 127);
    // Four times the samples of a frame.
    assert_eq!(report.filled, 8);
    assert_eq!(out, [0; 10]);
}

#[test]
fn reader_counts_overruns() {
    let mut p = AudioPipeline::new(AudioConfig::default());
    let (mut producer, _consumer) = p.create_stream_buffers();
    let mut r = reader(1, 4096);
    r.feed(&[1, 2]);
    assert!(capture_input(&mut producer, &[0i16; 4096]));
    assert!(r.accept(Ok((1, &[1, 0])), &mut producer));
    assert_eq!(r.window(), &[2]);
}

#[test]
fn writer_takes_whole_blocks() {
    let mut p = AudioPipeline::new(AudioConfig::default());
    let (mut producer, mut consumer) = p.create_stream_buffers();
    let w = BtWriter::open(SbcContext::from_a2dp_config(0), 119, 6).unwrap();
    assert_eq!((w.samples_per_frame(), w.frame_room()), (3, 183));
    assert!(capture_input(&mut producer, &[1, 2]));
    assert!(w.next_block(&mut consumer).is_none());
    assert!(capture_input(&mut producer, &[3, 4]));
    assert_eq!(w.next_block(&mut consumer).unwrap(), vec![1, 2, 3]);
    assert!(w.next_block(&mut consumer).is_none());
    assert_eq!(w.encoded(Ok((6, 2)), &[8, 9, 10]).unwrap(), &[8, 9]);
    assert_eq!(
        w.encoded(Err(SbcError::EncodeFailed(-1)), &[]).unwrap_err().message(),
        "Encoding error: SBC encode code -1"
    );
}

#[test]
fn engine_and_transport_error_texts() {
    assert_eq!(EngineError::NoAudioDevice.message(), "No audio device found");
    assert_eq!(
        EngineError::AudioStreamFailed("a".to_string()).message(),
        "Audio stream setup failed: a"
    );
    assert_eq!(
        EngineError::ThreadSpawnFailed("b".to_string()).message(),
        "Thread spawn failed: b"
    );
    assert_eq!(EngineError::CodecInitFailed("c".to_string()).message(), "Codec init failed: c");
    assert_eq!(
        TransportError::NotInitialized("a".to_string()).message(),
        "Pipeline not initialized: a"
    );
    assert_eq!(TransportError::DeviceError("b".to_string()).message(), "Audio device error: b");
    assert_eq!(TransportError::BufferError("c".to_string()).message(), "Ring buffer error: c");
}
