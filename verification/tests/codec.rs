use demod_bt::codec::{
    create_codec, pcm_bytes, AudioCodec, CodecConfig, CodecError, Lc3CodecLive, LiveCodec, OpenedContext,
    SbcCodecLive,
};
use demod_bt::hex;
use demod_bt::lc3_ffi::{Lc3Context, Lc3Error};
use demod_bt::sbc_ffi::{SbcContext, SbcError};

fn open_sbc() -> SbcCodecLive {
    let mut c = SbcCodecLive::new();
    assert!(c.init_a2dp(SbcContext::from_a2dp_config(0)).is_ok());
    c
}

#[test]
fn codec_ids() {
    for id in 0..=255u8 {
        match AudioCodec::from_id(id) {
            Some(c) => assert_eq!(c.id(), id),
            None => assert!(id != 0 && id != 1 && id != 2 && id != 6),
        }
    }
    assert_eq!(AudioCodec::Mpeg12.name(), "MPEG-1,2");
    assert_eq!(AudioCodec::Lc3.id(), 6);
}

#[test]
fn default_configuration() {
    let c = CodecConfig::default();
    assert_eq!(c.codec, AudioCodec::Sbc);
    assert_eq!(c.raw_config, vec![0x48, 0x8A, 2, 53]);
    assert_eq!(c.estimated_frame_size(), 119);
    assert_eq!(c.frame_duration_us(), 2902);
}

#[test]
fn other_frame_sizes() {
    let mut c = CodecConfig::default();
    c.raw_config[3] = 76;
    assert_eq!(c.estimated_frame_size(), 165);
    c.raw_config[3] = 0;
    assert_eq!(c.estimated_frame_size(), 13);
    c.raw_config = vec![1, 2, 3];
    assert_eq!(c.estimated_frame_size(), 119);
    c.codec = AudioCodec::Lc3;
    c.bitrate = 96000;
    assert_eq!(c.estimated_frame_size(), 120);
    c.sample_rate = 0;
    assert_eq!(c.frame_duration_us(), 10_000);
    c.codec = AudioCodec::Aac;
    c.sample_rate = 48000;
    assert_eq!((c.estimated_frame_size(), c.frame_duration_us()), (256, 21333));
    c.codec = AudioCodec::Mpeg12;
    assert_eq!((c.estimated_frame_size(), c.frame_duration_us()), (417, 24000));
}

#[test]
fn sbc_context_life() {
    assert!(matches!(SbcContext::new(-22), Err(SbcError::InitFailed(-22))));
    let mut ctx = SbcContext::new(0).unwrap();
    assert!(ctx.ready().is_ok());
    assert_eq!(ctx.decode(12, 512).unwrap(), (12, 512));
    assert_eq!(ctx.decode(-1, 0), Err(SbcError::DecodeFailed(-1)));
    assert_eq!(ctx.encode(512, 119).unwrap(), (512, 119));
    assert_eq!(ctx.encode(-3, 0), Err(SbcError::EncodeFailed(-3)));
    assert!(ctx.finish());
    assert!(!ctx.finish());
    assert_eq!(ctx.decode(12, 512), Err(SbcError::NotInitialized));
    assert_eq!(ctx.ready(), Err(SbcError::NotInitialized));
}

#[test]
fn sbc_error_texts() {
    assert_eq!(SbcError::InitFailed(-5).message(), "SBC init failed with code -5");
    assert_eq!(SbcError::NotInitialized.message(), "SBC not initialized");
    assert_eq!(SbcError::DecodeFailed(-2147483648).message(), "SBC decode failed with code -2147483648");
    assert_eq!(SbcError::EncodeFailed(7).message(), "SBC encode failed with code 7");
    assert_eq!(
        CodecError::from_sbc(SbcError::DecodeFailed(-1)).message(),
        "Decoding error: SBC decode code -1"
    );
    assert_eq!(
        CodecError::from_sbc(SbcError::InitFailed(-1)).message(),
        "Codec initialization failed: SBC init code -1"
    );
    assert_eq!(
        CodecError::from_sbc(SbcError::EncodeFailed(-1)).message(),
        "Encoding error: SBC encode code -1"
    );
    assert_eq!(
        CodecError::InvalidConfig("x".to_string()).message(),
        "Invalid configuration: x"
    );
}

#[test]
fn decoding_before_opening_fails() {
    let mut c = SbcCodecLive::default();
    let mut out = [5i16; 4];
    let r = c.decode_frame(Ok((3, &[1, 0])), &mut out);
    assert_eq!(r.unwrap_err().message(), "Codec initialization failed: SBC not initialized");
    assert_eq!(out, [5i16; 4]);
    assert!(c.encode_frame(Ok((4, 2))).is_err());
    assert_eq!((c.frame_length(7), c.codesize(7), c.frame_duration_us(7)), (119, 512, 2902));
}

#[test]
fn decoding_little_endian() {
    let mut c = open_sbc();
    let mut out = [9i16; 4];
    let r = c.decode_frame(Ok((12, &[0x34, 0x12, 0xFF, 0xFF, 0x00, 0x80])), &mut out);
    assert_eq!(r.unwrap(), (12, 3));
    assert_eq!(out, [0x1234, -1, -32768, 9]);
    assert_eq!((c.frame_length(7), c.codesize(8), c.frame_duration_us(9)), (7, 8, 9));
    assert_eq!(c.encode_frame(Ok((512, 119))).unwrap(), (256, 119));
}

#[test]
fn samples_as_bytes() {
    let samples = [0x1234i16, -1, -32768, 32767, 0];
    let bytes = pcm_bytes(&samples);
    assert_eq!(bytes, vec![0x34, 0x12, 0xFF, 0xFF, 0x00, 0x80, 0xFF, 0x7F, 0, 0]);
    let mut out = [9i16; 5];
    open_sbc().decode_frame(Ok((1, &bytes)), &mut out).unwrap();
    assert_eq!(out, samples);
    assert!(pcm_bytes(&[]).is_empty());
}

#[test]
fn concealment_fades_by_halves() {
    let mut c = open_sbc();
    let mut out = [0i16; 4];
    c.decode_frame(Ok((1, &[0x00, 0x40, 0x00, 0xC0])), &mut out).unwrap();
    assert_eq!(&out[0..2], &[0x4000, -0x4000]);
    for k in 1..=8u32 {
        let mut out = [7i16; 4];
        assert_eq!(c.plc(&mut out).unwrap(), 2);
        assert_eq!(out, [0x4000 >> k, -0x4000 >> k, 7, 7]);
        assert_eq!(c.loss_count(), k);
    }
    let mut out = [7i16; 4];
    assert_eq!(c.plc(&mut out).unwrap(), 2);
    assert_eq!(out, [0, 0, 7, 7]);
    // A good frame starts over.
    c.decode_frame(Ok((1, &[0x00, 0x40])), &mut out).unwrap();
    assert_eq!(c.loss_count(), 0);
    assert_eq!(c.plc(&mut out).unwrap(), 1);
    assert_eq!(out[0], 0x2000);
    c.reset();
    assert_eq!(c.loss_count(), 0);
    assert_eq!(c.plc(&mut out).unwrap(), 4);
    assert_eq!(out, [0; 4]);
}

#[test]
fn concealment_without_a_good_frame_is_silence() {
    let mut c = open_sbc();
    let mut out = [7i16; 3];
    assert_eq!(c.plc(&mut out).unwrap(), 3);
    assert_eq!(out, [0; 3]);
    assert_eq!(c.loss_count(), 0);
}

#[test]
fn concealment_rounds_down() {
    let mut c = open_sbc();
    let mut out = [0i16; 2];
    c.decode_frame(Ok((1, &[0xFF, 0xFF, 0x03, 0x00])), &mut out).unwrap();
    c.plc(&mut out).unwrap();
    assert_eq!(out, [-1, 1]);
}

#[test]
fn failed_opening_changes_nothing() {
    let mut c = open_sbc();
    let mut out = [0i16; 1];
    c.decode_frame(Ok((1, &[1, 0])), &mut out).unwrap();
    assert!(c.init_a2dp(Err(SbcError::InitFailed(-1))).is_err());
    assert_eq!(c.plc(&mut out).unwrap(), 1);
}

#[test]
fn codec_choice() {
    let r = create_codec(0, OpenedContext::Sbc(SbcContext::from_a2dp_config(0)));
    assert!(matches!(&r, Ok(LiveCodec::Sbc(_))));
    assert_eq!(r.unwrap().codec_type(), AudioCodec::Sbc);
    let r = create_codec(0, OpenedContext::Sbc(SbcContext::from_a2dp_config(-7)));
    assert_eq!(r.unwrap_err().message(), "Codec initialization failed: SBC init code -7");
    let r = create_codec(0xAB, OpenedContext::Absent);
    assert_eq!(r.unwrap_err().message(), "Unsupported codec: codec ID 0xAB");
    let r = create_codec(2, OpenedContext::Absent);
    assert_eq!(r.unwrap_err().message(), "Unsupported codec: AAC");
    let r = create_codec(6, OpenedContext::Absent);
    assert_eq!(r.unwrap_err().message(), "Unsupported codec: LC3");
    let r = create_codec(6, OpenedContext::Lc3(Lc3Context::new(10000, 48000, true, 480, 120)));
    assert_eq!(r.unwrap().codec_type(), AudioCodec::Lc3);
}

#[test]
fn lc3_parameters() {
    assert_eq!(Lc3CodecLive::parameters(&[]), (48000, 10000, 96000));
    // 48000 = 0xBB80, 7.5 ms, 90 octets
    assert_eq!(
        Lc3CodecLive::parameters(&[0x80, 0xBB, 0, 0, 0, 0, 0, 90, 0]),
        (48000, 7500, 96000)
    );
    assert_eq!(Lc3CodecLive::parameters(&[0x80, 0xBB, 1, 0, 0]), (48000, 10000, 96000));
}

#[test]
fn lc3_context() {
    assert!(Lc3Context::check_sizes(10, 20).is_ok());
    assert_eq!(
        Lc3Context::check_sizes(-1, 20).unwrap_err().message(),
        "LC3 invalid configuration: lc3 size query failed: enc=-1, dec=20"
    );
    assert_eq!(
        Lc3Context::new(10000, 48000, false, 480, 120).unwrap_err().message(),
        "LC3 init failed: lc3_setup returned NULL"
    );
    let c = Lc3Context::new(10000, 48000, true, 480, 120).unwrap();
    assert!(c.fits(480).is_ok() && matches!(c.fits(479), Err(Lc3Error::BufferTooSmall)));
    assert!(c.encodes(480, 120).is_ok());
    assert!(c.encodes(479, 120).is_err() && c.encodes(480, 119).is_err());
    assert_eq!(c.decode(0).unwrap(), 480);
    assert_eq!(c.decode(1).unwrap(), 480);
    assert_eq!(c.decode(2).unwrap_err().message(), "LC3 decode failed with code 2");
    assert_eq!(c.plc(1).unwrap(), 480);
    assert!(c.plc(-1).is_err());
    assert_eq!(c.encode(0).unwrap(), 120);
    assert_eq!(c.encode(-1).unwrap_err().message(), "LC3 encode failed with code -1");
    assert_eq!(c.frame_duration_us(), 10000);
    assert_eq!(Lc3Error::BufferTooSmall.message(), "Buffer too small for LC3 frame");
}

#[test]
fn lc3_codec() {
    let mut c = Lc3CodecLive::new();
    assert_eq!((c.frame_length(), c.codesize(), c.frame_duration_us()), (120, 960, 10000));
    assert_eq!(
        c.plc(Ok(3)).unwrap_err().message(),
        "Codec initialization failed: LC3 not init"
    );
    assert!(c.init_a2dp(Lc3Context::new(7500, 48000, true, 360, 90)).is_ok());
    assert_eq!((c.frame_length(), c.codesize(), c.frame_duration_us()), (90, 720, 7500));
    assert_eq!(c.decode_frame(Ok(2), 90, &[1, 2, 3]).unwrap(), (90, 2));
    assert_eq!(
        c.decode_frame(Err(Lc3Error::DecodeFailed(-1)), 90, &[]).unwrap_err().message(),
        "Decoding error: LC3 decode failed with code -1"
    );
    assert_eq!(c.encode_frame(Ok(90)).unwrap(), (360, 90));
    assert!(c.encode_frame(Err(Lc3Error::EncodeFailed(-1))).is_err());
    assert_eq!(c.plc(Ok(360)).unwrap(), 360);
    c.reset();
    assert_eq!(c.codec_type(), AudioCodec::Lc3);
}

#[test]
fn hex_dump() {
    assert_eq!(hex::encode(&[0x48, 0x8A, 0x02, 0xFF]), "488a02ff");
    assert_eq!(hex::encode(&[]), "");
}
