use casm::transcode::{encoder_settings, select_best_rate, sink_frame_size, Stage, TranscodeSession};

#[test]
fn test_best_rate_above() {
    let supported = vec![48000, 24000, 16000, 12000, 8000, 0];
    let source: i32 = 41000;
    assert_eq!(select_best_rate(source, Some(supported)), 48000);
}

#[test]
fn test_best_rate_below() {
    let supported = vec![24000, 16000, 12000, 8000, 0];
    let source: i32 = 41000;
    assert_eq!(select_best_rate(source, Some(supported)), 24000);
}

#[test]
fn test_best_rate_equal() {
    let supported = vec![48000, 41000, 24000, 16000, 12000, 8000, 0];
    let source: i32 = 41000;
    assert_eq!(select_best_rate(source, Some(supported)), 41000);
}

#[test]
fn best_rate_without_list_keeps_source() {
    assert_eq!(select_best_rate(44100, None), 44100);
    assert_eq!(select_best_rate(44100, Some(vec![])), 44100);
    assert_eq!(select_best_rate(44100, Some(vec![0])), 44100);
}

#[test]
fn best_rate_unsorted_list() {
    let supported = vec![44100, 48000, 88200, 96000, 176400, 192000, 0];
    assert_eq!(select_best_rate(44100, Some(supported.clone())), 44100);
    assert_eq!(select_best_rate(45000, Some(supported.clone())), 48000);
    assert_eq!(select_best_rate(200000, Some(supported)), 192000);
}

#[test]
fn encoder_settings_for_cd_audio() {
    let e = encoder_settings(44100, Some(vec![48000, 24000, 16000, 12000, 8000]), 320 * 1024).unwrap();
    assert_eq!(e.sample_rate, 48000);
    assert_eq!(e.time_base_num, 1);
    assert_eq!(e.time_base_den, 44100);
    assert_eq!(e.bit_rate, 327680);
}

#[test]
fn encoder_settings_rate_too_large() {
    assert!(encoder_settings(3_000_000_000, None, 1).is_none());
}

#[test]
fn frame_size_only_when_fixed() {
    assert_eq!(sink_frame_size(true, 960), None);
    assert_eq!(sink_frame_size(false, 960), Some(960));
}

#[test]
fn session_reads_only_its_stream() {
    let s = TranscodeSession::new(1);
    assert!(s.accepts_packet(1));
    assert!(!s.accepts_packet(0));
    assert_eq!(s.current_stage(), Stage::Reading);
}

#[test]
fn session_stages_in_order() {
    let mut s = TranscodeSession::new(0);
    s.packet_written();
    assert_eq!(s.advance(), Stage::FlushingFilter);
    assert!(!s.accepts_packet(0));
    assert!(s.accepts_output());
    s.packet_written();
    assert_eq!(s.advance(), Stage::FlushingEncoder);
    s.packet_written();
    assert_eq!(s.advance(), Stage::WritingTrailer);
    assert!(!s.accepts_output());
    assert_eq!(s.advance(), Stage::Finished);
    assert_eq!(s.advance(), Stage::Finished);
    assert_eq!(s.packets_written(), 3);
}
