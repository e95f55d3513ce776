use vgm_render::header::{data_start, parse_header, HeaderError, FALLBACK_YM_CLOCK};
use vgm_render::loop_point::{find_loop_samples, loop_start_samples};
use vgm_render::seek::{parse_u64, seek_ms_from_args, seek_target_frames};
use vgm_render::stream::{command_size, stream_len_supported, u16le, u32le};
use vgm_render::plan::{plan_part, RenderPart};
use vgm_render::timing::TimingAccumulator;

/// A minimal VGM 1.50 file: header, then `cmds` at 0x40.
fn vgm(cmds: &[u8], clock: u32, loop_rel: u32) -> Vec<u8> {
    let mut v = vec![0u8; 0x40];
    v[0..4].copy_from_slice(b"Vgm ");
    let total = (0x40 + cmds.len()) as u32;
    v[4..8].copy_from_slice(&(total - 4).to_le_bytes());
    v[8..12].copy_from_slice(&0x150u32.to_le_bytes());
    v[0x1c..0x20].copy_from_slice(&loop_rel.to_le_bytes());
    v[0x20..0x24].copy_from_slice(&1234u32.to_le_bytes());
    v[0x2c..0x30].copy_from_slice(&clock.to_le_bytes());
    v[0x34..0x38].copy_from_slice(&0x0cu32.to_le_bytes());
    v.extend_from_slice(cmds);
    v
}

#[test]
fn u32le_reads_little_endian() {
    let b = [0xaa, 0x78, 0x56, 0x34, 0x12];
    assert_eq!(u32le(&b, 1), 0x1234_5678);
    assert_eq!(u32le(&[0xff, 0xff, 0xff, 0xff], 0), u32::MAX);
    assert_eq!(u16le(&[0x34, 0x12], 0), 0x1234);
}

#[test]
fn command_size_of_fixed_commands() {
    let b = [0x50, 0x00, 0x52, 0x28, 0xf0, 0x61, 0x44, 0x01, 0x62, 0x66];
    assert_eq!(command_size(&b, 0, b.len()), Some(2));
    assert_eq!(command_size(&b, 2, b.len()), Some(3));
    assert_eq!(command_size(&b, 5, b.len()), Some(3));
    assert_eq!(command_size(&b, 8, b.len()), Some(1));
    assert_eq!(command_size(&b, 9, b.len()), Some(1));
    // at or past the end
    assert_eq!(command_size(&b, 10, b.len()), None);
    // runs past eof
    assert_eq!(command_size(&b, 2, 4), None);
    // unknown command bytes
    assert_eq!(command_size(&[0x00], 0, 1), None);
    assert_eq!(command_size(&[0x6b], 0, 1), None);
    assert_eq!(command_size(&[0x96, 0, 0, 0, 0], 0, 5), None);
    assert_eq!(command_size(&[0xe0, 0, 0, 0, 0], 0, 5), Some(5));
    assert_eq!(command_size(&[0x68, 0, 0, 0, 0, 0, 0, 0, 0, 0, 0, 0], 0, 12), Some(12));
}

#[test]
fn command_size_of_data_block() {
    let b = [0x67, 0x66, 0x00, 3, 0, 0, 0, 1, 2, 3];
    assert_eq!(command_size(&b, 0, b.len()), Some(10));
    assert_eq!(command_size(&b, 0, 9), None);
    let bad = [0x67, 0x65, 0x00, 0, 0, 0, 0];
    assert_eq!(command_size(&bad, 0, bad.len()), None);
    assert_eq!(command_size(&b[..6], 0, 6), None);
}

#[test]
fn timing_carries_remainder() {
    let mut t = TimingAccumulator::new();
    // 735 samples at 53267 Hz: 887.78 frames
    assert_eq!(t.frames_for_wait(735, 53267), 887);
    assert_eq!(t.frames_for_wait(735, 53267), 888);
    assert_eq!(t.frames_for_wait(0, 53267), 0);
    assert_eq!(t.frames_for_wait(1, 44100), 1);
}

#[test]
fn timing_has_no_drift() {
    let mut t = TimingAccumulator::new();
    let mut total = 0u64;
    for _ in 0..60 {
        total += t.frames_for_wait(735, 53267) as u64;
    }
    // one second of VGM time is exactly one second of native frames
    assert_eq!(total, 53267);
    let mut t2 = TimingAccumulator::new();
    let mut total2 = 0u64;
    for w in [1u64, 2, 3, 5, 8, 13, 21, 34, 55, 89] {
        total2 += t2.frames_for_wait(w, 53267) as u64;
    }
    assert_eq!(total2, (231u64 * 53267) / 44100);
}

#[test]
fn header_fields() {
    let v = vgm(&[0x66], 7_670_453, 0x24);
    let h = parse_header(&v).unwrap();
    assert_eq!(h.version, 0x150);
    assert_eq!(h.data_offset, 0x40);
    assert_eq!(h.eof, 0x41);
    assert_eq!(h.clock, 7_670_453);
    assert_eq!(h.loop_offset, Some(0x40));
    assert_eq!(h.loop_samples, 1234);
    assert_eq!(data_start(&h), Ok(0x40));
}

#[test]
fn header_clock_flags_and_fallback() {
    let v = vgm(&[0x66], 0x8000_0000 | 7_000_000, 0);
    assert_eq!(parse_header(&v).unwrap().clock, 7_000_000);
    let v = vgm(&[0x66], 0, 0);
    let h = parse_header(&v).unwrap();
    assert_eq!(h.clock, FALLBACK_YM_CLOCK);
    assert_eq!(h.loop_offset, None);
}

#[test]
fn header_old_version_and_eof_cap() {
    let mut v = vgm(&[0x66], 7_670_453, 0);
    v[8..12].copy_from_slice(&0x101u32.to_le_bytes());
    v[0x34..0x38].copy_from_slice(&0x100u32.to_le_bytes());
    v[4..8].copy_from_slice(&0xffffu32.to_le_bytes());
    let h = parse_header(&v).unwrap();
    assert_eq!(h.data_offset, 0x40);
    assert_eq!(h.eof, v.len());
    v[4..8].copy_from_slice(&0u32.to_le_bytes());
    assert_eq!(parse_header(&v).unwrap().eof, v.len());
}

#[test]
fn header_rejects_non_vgm() {
    assert_eq!(parse_header(&[0u8; 0x40]), Err(HeaderError::NotVgm));
    let v = vgm(&[], 1, 0);
    assert_eq!(parse_header(&v[..0x3f]), Err(HeaderError::NotVgm));
    let mut w = vgm(&[0x66], 1, 0);
    w[3] = b'x';
    assert_eq!(parse_header(&w), Err(HeaderError::NotVgm));
}

#[test]
fn header_rejects_data_offset_past_end() {
    let mut v = vgm(&[0x66], 1, 0);
    v[0x34..0x38].copy_from_slice(&0x100u32.to_le_bytes());
    // version 1.50 in BCD (0x150) is below the 0x0001_0050 threshold, so
    // the relative offset is ignored
    assert_eq!(parse_header(&v).unwrap().data_offset, 0x40);
    v[8..12].copy_from_slice(&0x0001_0050u32.to_le_bytes());
    let h = parse_header(&v).unwrap();
    assert_eq!(h.data_offset, 0x134);
    assert_eq!(data_start(&h), Err(HeaderError::InvalidDataOffset));
    let v = vgm(&[], 1, 0);
    assert_eq!(data_start(&parse_header(&v).unwrap()), Err(HeaderError::InvalidDataOffset));
}

#[test]
fn loop_samples_counts_waits_before_loop_point() {
    // 0x40: wait 100; 0x43: 0x62; 0x44: 0x73 (4); 0x45: 0x85 (5); 0x46: ym write; 0x49: loop point: 0x63
    let cmds = [0x61, 100, 0, 0x62, 0x73, 0x85, 0x52, 0x28, 0x00, 0x63, 0x66];
    let v = vgm(&cmds, 1, 0);
    let eof = v.len();
    assert_eq!(find_loop_samples(&v, 0x40, eof, 0x49), Some(100 + 735 + 4 + 5));
    assert_eq!(find_loop_samples(&v, 0x40, eof, 0x40), Some(0));
    // in the middle of a command: never met
    assert_eq!(find_loop_samples(&v, 0x40, eof, 0x41), None);
    // past the end command
    assert_eq!(find_loop_samples(&v, 0x40, eof, 0x4b), None);
    assert_eq!(loop_start_samples(&v, 0x40, eof, Some(0x49)), Some(844));
    assert_eq!(loop_start_samples(&v, 0x40, eof, None), None);
    assert_eq!(loop_start_samples(&v, 0x40, eof, Some(u64::MAX)), None);
}

#[test]
fn seek_args() {
    let a = |v: &[&str]| v.iter().map(|s| s.as_bytes().to_vec()).collect::<Vec<_>>();
    assert_eq!(seek_ms_from_args(&a(&[])), 0);
    assert_eq!(seek_ms_from_args(&a(&["--seek-ms=1500"])), 1500);
    assert_eq!(seek_ms_from_args(&a(&["--seek-ms=abc", "--seek-ms=+20"])), 20);
    assert_eq!(seek_ms_from_args(&a(&["--seek-ms=", "x", "--seek-ms=7", "--seek-ms=8"])), 7);
    assert_eq!(seek_ms_from_args(&a(&["--seek=5"])), 0);
}

#[test]
fn parse_u64_as_from_str() {
    assert_eq!(parse_u64(b"0"), Some(0));
    assert_eq!(parse_u64(b"007"), Some(7));
    assert_eq!(parse_u64(b"+42"), Some(42));
    assert_eq!(parse_u64(b"18446744073709551615"), Some(u64::MAX));
    assert_eq!(parse_u64(b"18446744073709551616"), None);
    assert_eq!(parse_u64(b""), None);
    assert_eq!(parse_u64(b"+"), None);
    assert_eq!(parse_u64(b"-1"), None);
    assert_eq!(parse_u64(b"1 "), None);
    for s in ["12", "+3", "99999999999999999999", "x", "++1"] {
        assert_eq!(parse_u64(s.as_bytes()), s.parse::<u64>().ok());
    }
}

#[test]
fn seek_target_rounds_down() {
    assert_eq!(seek_target_frames(0, 53267), 0);
    assert_eq!(seek_target_frames(1000, 53267), 53267);
    assert_eq!(seek_target_frames(1, 53267), 53);
    assert_eq!(seek_target_frames(u64::MAX, 1000), u64::MAX);
}

#[test]
fn stream_length_limit() {
    assert!(stream_len_supported(0));
    assert!(stream_len_supported(0x7fff_ffff));
    assert!(stream_len_supported(0x8000_0000usize));
    assert!(!stream_len_supported(usize::MAX));
    if usize::BITS == 64 {
        assert!(stream_len_supported(844_437_815_230_467));
        assert!(!stream_len_supported(844_437_815_230_468));
    }
}

#[test]
fn loop_time_adds_up() {
    let s = [0x61, 0x44, 0x01, 0x62, 0x4f, 0x00, 0x63, 0x70, 0x7f, 0x66];
    let t = |from: usize, to: usize| find_loop_samples(&s, from, s.len(), to);
    assert_eq!(t(0, 3), Some(324));
    assert_eq!(t(3, 7), Some(735 + 882));
    assert_eq!(t(0, 7), Some(324 + 735 + 882));
    assert_eq!(t(7, 9), Some(1 + 16));
    assert_eq!(t(0, 9), Some(t(0, 7).unwrap() + t(7, 9).unwrap()));
    // monotone along the stream
    assert!(t(0, 3).unwrap() <= t(0, 6).unwrap());
    // the loop point may not be inside a command
    assert_eq!(t(0, 1), None);
}

#[test]
fn loop_at_end_command_is_whole_timeline() {
    let s = [0x61, 0x44, 0x01, 0x62, 0x63, 0x70, 0x7f, 0x66, 0x62];
    let p = plan_part(&s, 0, s.len(), RenderPart::Fm(0)).unwrap();
    assert_eq!(find_loop_samples(&s, 0, s.len(), 7), Some(p.timeline_samples));
    assert_eq!(find_loop_samples(&s, 0, s.len(), 8), None);
}
