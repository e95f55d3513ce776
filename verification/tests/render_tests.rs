use std::io::Write;
use vgm_render::input::decode_input;
use vgm_render::mix::{ChannelMix, MixError};
use vgm_render::pcm::{absorb_frames, interleave_pcm, pcm_sample};
use vgm_render::plan::{plan_part, write_ym, ChipOp, RenderError, RenderPart};
use vgm_render::render::{probe_chip, render_part, PartRender};

const CLOCK: u32 = 7_670_453;

fn w(offset: u32, data: u8) -> ChipOp {
    ChipOp::Write { offset, data }
}

fn wait(samples: u64) -> ChipOp {
    ChipOp::Wait { samples }
}

#[test]
fn pcm_sample_gain_and_clamp() {
    assert_eq!(pcm_sample(0), 0);
    assert_eq!(pcm_sample(255), 0);
    assert_eq!(pcm_sample(256), 128);
    assert_eq!(pcm_sample(-1), -128);
    assert_eq!(pcm_sample(-256), -128);
    assert_eq!(pcm_sample(-257), -256);
    assert_eq!(pcm_sample(255 * 256), 32640);
    assert_eq!(pcm_sample(256 * 256), 32767);
    assert_eq!(pcm_sample(-256 * 256), -32768);
    assert_eq!(pcm_sample(-257 * 256), -32768);
    assert_eq!(pcm_sample(i32::MAX), 32767);
    assert_eq!(pcm_sample(i32::MIN), -32768);
}

#[test]
fn absorb_frames_skips_and_tracks_peak() {
    let buf = [256, -512, 1024, 2048, -4096, 0];
    let mut out = vec![7i16];
    let mut peak = 100;
    let mut skip = 2u64;
    absorb_frames(&buf, 2, 3, &mut out, &mut peak, &mut skip);
    assert_eq!(peak, 4096);
    assert_eq!(skip, 0);
    assert_eq!(out, vec![7, -2048, 0]);

    let mut out = Vec::new();
    let mut peak = 5000;
    let mut skip = 10u64;
    absorb_frames(&buf, 2, 3, &mut out, &mut peak, &mut skip);
    assert_eq!(peak, 5000);
    assert_eq!(skip, 7);
    assert!(out.is_empty());
}

#[test]
fn interleave_layout() {
    let streams = vec![vec![1i16, 2, 3, 4], vec![-1i16, 0x0102, 5, 6, 99, 99]];
    let b = interleave_pcm(&streams, 2);
    assert_eq!(
        b,
        vec![1, 0, 2, 0, 0xff, 0xff, 2, 1, 3, 0, 4, 0, 5, 0, 6, 0]
    );
    assert!(interleave_pcm(&streams, 0).is_empty());
}

#[test]
fn write_routing_per_part() {
    // FM register 0xa4 on port 2: channel 3 + 0 = FM4 (index 3)
    for ch in 0..6 {
        let mut ops = Vec::new();
        write_ym(&mut ops, 2, 0xa4, 0x22, RenderPart::Fm(ch));
        if ch == 3 {
            assert_eq!(ops, vec![w(2, 0xa4), w(3, 0x22)]);
        } else {
            assert!(ops.is_empty());
        }
    }
    let mut ops = Vec::new();
    write_ym(&mut ops, 2, 0xa4, 0x22, RenderPart::Dac);
    assert!(ops.is_empty());
    // key-on 0xf6: channel (2) + 3 = 5
    for ch in 0..6 {
        let mut ops = Vec::new();
        write_ym(&mut ops, 0, 0x28, 0xf6, RenderPart::Fm(ch));
        assert_eq!(ops.len(), if ch == 5 { 2 } else { 0 });
    }
    // global and DAC registers
    let mut ops = Vec::new();
    write_ym(&mut ops, 0, 0x2b, 0x80, RenderPart::Fm(1));
    write_ym(&mut ops, 0, 0x2a, 0x80, RenderPart::Fm(1));
    write_ym(&mut ops, 0, 0x2a, 0x81, RenderPart::Dac);
    write_ym(&mut ops, 0, 0x22, 0x08, RenderPart::Dac);
    assert_eq!(ops, vec![w(0, 0x2b), w(1, 0x80), w(0, 0x2a), w(1, 0x81), w(0, 0x22), w(1, 0x08)]);
    // 0x?3 is no channel
    let mut ops = Vec::new();
    write_ym(&mut ops, 0, 0x33, 0x01, RenderPart::Fm(0));
    write_ym(&mut ops, 0, 0x33, 0x01, RenderPart::Fm(3));
    assert!(ops.is_empty());
}

#[test]
fn plan_of_a_stream() {
    let s = [
        0x52, 0x28, 0xf0, // key on ch 0
        0x61, 0x10, 0x00, // wait 16
        0x53, 0xa5, 0x12, // port 2: channel 4 (index 4)
        0x62, 0x63, 0x70, 0x7f, // waits 735, 882, 1, 16
        0x50, 0x11, // PSG, ignored
        0x4f, 0x00, // other chip, skipped
        0x66, 0x62, // end; the trailing wait is never read
    ];
    let p = plan_part(&s, 0, s.len(), RenderPart::Fm(0)).unwrap();
    assert_eq!(p.ops, vec![w(0, 0x28), w(1, 0xf0), wait(16), wait(735), wait(882), wait(1), wait(16)]);
    assert_eq!(p.timeline_samples, 16 + 735 + 882 + 1 + 16);
    assert_eq!(p.commands, 10);
    assert_eq!(p.ym_writes, 2);
    assert_eq!(p.dac_writes, 0);
    let q = plan_part(&s, 0, s.len(), RenderPart::Fm(4)).unwrap();
    assert_eq!(q.ops, vec![wait(16), w(2, 0xa5), w(3, 0x12), wait(735), wait(882), wait(1), wait(16)]);
    assert_eq!(q.timeline_samples, p.timeline_samples);
    // no end command: stops at eof
    let r = plan_part(&s, 0, 9, RenderPart::Fm(0)).unwrap();
    assert_eq!(r.timeline_samples, 16);
    assert_eq!(r.commands, 3);
}

#[test]
fn plan_dac_stream() {
    let s = [
        0x67, 0x66, 0x00, 3, 0, 0, 0, 10, 20, 30, // bank 0 = [10, 20, 30]
        0x67, 0x66, 0x01, 1, 0, 0, 0, 99, // another type, not the DAC bank
        0x81, 0x80, // DAC 10 + wait 1, DAC 20
        0xe0, 0, 0, 0, 0, // seek to 0
        0x82, 0x66,
    ];
    let p = plan_part(&s, 0, s.len(), RenderPart::Dac).unwrap();
    assert_eq!(
        p.ops,
        vec![w(0, 0x2a), w(1, 10), wait(1), w(0, 0x2a), w(1, 20), wait(0), w(0, 0x2a), w(1, 10), wait(2)]
    );
    assert_eq!(p.dac_writes, 3);
    assert_eq!(p.data_blocks, 2);
    let f = plan_part(&s, 0, s.len(), RenderPart::Fm(0)).unwrap();
    assert_eq!(f.ops, vec![wait(1), wait(0), wait(2)]);
    assert_eq!(f.dac_writes, 3);
}

#[test]
fn plan_errors() {
    let e = |s: &[u8]| plan_part(s, 0, s.len(), RenderPart::Fm(0)).err();
    assert_eq!(e(&[0x52, 0x28]), Some(RenderError::TruncatedYmWrite));
    assert_eq!(e(&[0x61, 0x01]), Some(RenderError::TruncatedWait));
    assert_eq!(e(&[0x67, 0x66, 0x00, 5, 0, 0, 0, 1]), Some(RenderError::InvalidDataBlock));
    assert_eq!(e(&[0x80]), Some(RenderError::DacBankMissing));
    assert_eq!(e(&[0x67, 0x66, 0x00, 1, 0, 0, 0, 5, 0x80, 0x80]), Some(RenderError::DacBankExhausted));
    assert_eq!(e(&[0xe0, 0, 0]), Some(RenderError::TruncatedDacSeek));
    assert_eq!(e(&[0xe0, 0, 0, 0, 0]), Some(RenderError::DacBankMissing));
    assert_eq!(e(&[0x67, 0x66, 0x00, 1, 0, 0, 0, 5, 0xe0, 1, 0, 0, 0]), Some(RenderError::DacSeekOutOfRange));
    assert_eq!(e(&[0x62, 0x00]), Some(RenderError::UnsupportedCommand { cmd: 0, pos: 1 }));
    assert_eq!(e(&[0x62, 0x68, 0]), Some(RenderError::UnsupportedCommand { cmd: 0x68, pos: 1 }));
}

#[test]
fn probe_rate_and_channels() {
    assert_eq!(probe_chip(CLOCK), (CLOCK / 144, 2));
    assert_eq!(probe_chip(7_200_000), (50_000, 2));
}

/// A tone on FM channel 1 (index 0): algorithm 7, all operators loud.
fn tone_stream() -> Vec<u8> {
    let mut s = Vec::new();
    let mut ym = |reg: u8, val: u8| s.extend_from_slice(&[0x52, reg, val]);
    ym(0xb0, 0x07);
    ym(0xb4, 0xc0);
    for op in [0x00u8, 0x04, 0x08, 0x0c] {
        ym(0x30 + op, 0x01);
        ym(0x40 + op, 0x00);
        ym(0x50 + op, 0x1f);
        ym(0x60 + op, 0x00);
        ym(0x70 + op, 0x00);
        ym(0x80 + op, 0x0f);
    }
    ym(0xa4, 0x22);
    ym(0xa0, 0x69);
    ym(0x28, 0xf0);
    s.extend_from_slice(&[0x62, 0x62, 0x66]);
    s
}

#[test]
fn render_part_lengths_follow_timeline() {
    let s = tone_stream();
    let rate = CLOCK / 144;
    let fm1 = render_part(&s, 0, s.len(), CLOCK, rate, 0, RenderPart::Fm(0)).unwrap();
    let frames = (1470u64 * rate as u64 / 44100) as usize;
    assert_eq!(fm1.timeline_samples, 1470);
    assert_eq!(fm1.pcm.len(), 2 * frames);
    assert!(fm1.peak > 0);
    let fm2 = render_part(&s, 0, s.len(), CLOCK, rate, 0, RenderPart::Fm(1)).unwrap();
    assert_eq!(fm2.pcm.len(), 2 * frames);
    assert_eq!(fm2.timeline_samples, 1470);
    assert_eq!(fm2.peak, 0);
    // seeking drops the leading frames of every part
    let seeked = render_part(&s, 0, s.len(), CLOCK, rate, 100, RenderPart::Fm(0)).unwrap();
    assert_eq!(seeked.pcm.len(), 2 * (frames - 100));
    assert_eq!(&seeked.pcm[..], &fm1.pcm[200..]);
    let past = render_part(&s, 0, s.len(), CLOCK, rate, 1_000_000, RenderPart::Fm(0)).unwrap();
    assert!(past.pcm.is_empty());
}

#[test]
fn render_part_errors() {
    let s = [0x62, 0x80];
    assert_eq!(
        render_part(&s, 0, s.len(), CLOCK, CLOCK / 144, 0, RenderPart::Dac).err(),
        Some(RenderError::DacBankMissing)
    );
}

fn part(pcm: Vec<i16>, timeline: u64, peak: i32, commands: u64) -> PartRender {
    PartRender { pcm, timeline_samples: timeline, peak, commands, ym_writes: 1, dac_writes: 1, data_blocks: commands / 2 }
}

#[test]
fn mix_gathers_parts() {
    let mut m = ChannelMix::new();
    assert_eq!(m.add_part(part(vec![1, 2], 10, 5, 4)), Ok(()));
    assert_eq!(m.add_part(part(vec![3, 4], 10, 9, 6)), Ok(()));
    assert_eq!(m.timeline_samples, 10);
    assert_eq!(m.peak, 9);
    assert_eq!(m.commands_total, 10);
    assert_eq!(m.ym_writes_total, 2);
    assert_eq!(m.data_blocks, 3);
    let out = m.finish().ok().unwrap();
    assert_eq!(out.frames, 1);
    assert_eq!(out.pcm, vec![1, 0, 2, 0, 3, 0, 4, 0]);
}

#[test]
fn mix_errors() {
    let mut m = ChannelMix::new();
    m.add_part(part(vec![1, 2], 0, 5, 1)).unwrap();
    m.add_part(part(vec![1, 2], 7, 5, 1)).unwrap();
    assert_eq!(m.timeline_samples, 7);
    assert_eq!(m.add_part(part(vec![1, 2], 8, 5, 1)), Err(MixError::TimelineMismatch));
    assert_eq!(m.add_part(part(vec![1, 2], 0, 5, 1)), Err(MixError::TimelineMismatch));

    let mut m = ChannelMix::new();
    m.add_part(part(vec![1, 2], 7, 0, 1)).unwrap();
    assert_eq!(m.finish().err(), Some(MixError::Silent));
    let mut m = ChannelMix::new();
    m.add_part(part(vec![1], 7, 3, 1)).unwrap();
    assert_eq!(m.finish().err(), Some(MixError::Silent));
    let mut m = ChannelMix::new();
    m.add_part(part(vec![1, 2], 7, 3, 1)).unwrap();
    m.add_part(part(vec![1, 2, 3, 4], 7, 3, 1)).unwrap();
    assert_eq!(m.finish().err(), Some(MixError::PcmLengthMismatch));
}

#[test]
fn decode_input_plain_and_gzip() {
    let plain = b"Vgm plain bytes".to_vec();
    assert_eq!(decode_input(plain.clone()), Ok(plain.clone()));
    let mut enc = flate2::write::GzEncoder::new(Vec::new(), flate2::Compression::default());
    enc.write_all(&plain).unwrap();
    let gz = enc.finish().unwrap();
    assert_eq!(decode_input(gz.clone()), Ok(plain));
    let broken = gz[..gz.len() / 2].to_vec();
    assert!(decode_input(broken).is_err());
    assert!(decode_input(vec![0x1f, 0x8b, 0, 0]).is_err());
}

const ALL_PARTS: [RenderPart; 7] = [
    RenderPart::Fm(0),
    RenderPart::Fm(1),
    RenderPart::Fm(2),
    RenderPart::Fm(3),
    RenderPart::Fm(4),
    RenderPart::Fm(5),
    RenderPart::Dac,
];

#[test]
fn all_parts_share_timeline_and_waits() {
    let mut s = tone_stream();
    s.pop();
    s.extend_from_slice(&[0x67, 0x66, 0x00, 2, 0, 0, 0, 0x80, 0x90, 0x52, 0x2b, 0x80, 0x81, 0x8f, 0x66]);
    let first = plan_part(&s, 0, s.len(), RenderPart::Fm(0)).unwrap();
    let waits = |ops: &Vec<ChipOp>| ops.iter().filter(|o| matches!(o, ChipOp::Wait { .. })).cloned().collect::<Vec<_>>();
    for p in ALL_PARTS {
        let q = plan_part(&s, 0, s.len(), p).unwrap();
        assert_eq!(q.timeline_samples, first.timeline_samples);
        assert_eq!(q.commands, first.commands);
        assert_eq!(waits(&q.ops), waits(&first.ops));
    }
    let rate = CLOCK / 144;
    let mut mix = ChannelMix::new();
    for p in ALL_PARTS {
        let r = render_part(&s, 0, s.len(), CLOCK, rate, 0, p).unwrap();
        assert_eq!(r.pcm.len() as u64, 2 * (first.timeline_samples * rate as u64 / 44100));
        mix.add_part(r).unwrap();
    }
    let out = mix.finish().ok().unwrap();
    assert_eq!(out.pcm.len(), out.frames * 7 * 4);
}

#[test]
fn errors_are_the_same_for_every_part() {
    let s = [0x62, 0x52, 0x28, 0xf0, 0x67, 0x66, 0x00, 1, 0, 0, 0, 7, 0x80, 0x80];
    for p in ALL_PARTS {
        assert_eq!(plan_part(&s, 0, s.len(), p).err(), Some(RenderError::DacBankExhausted));
    }
}

#[test]
fn render_part_dac_example() {
    let s = [0x67, 0x66, 0x00, 0x02, 0x00, 0x00, 0x00, 0x11, 0x22, 0x80, 0x81, 0x70, 0x66];
    let r = render_part(&s, 0, s.len(), 7_670_454, 44_100, 0, RenderPart::Dac).unwrap();
    assert_eq!(r.timeline_samples, 2);
    assert_eq!(r.commands, 5);
    assert_eq!(r.ym_writes, 0);
    assert_eq!(r.dac_writes, 2);
    assert_eq!(r.data_blocks, 1);
    assert_eq!(r.pcm.len(), 4);
    let p = plan_part(&s, 0, s.len(), RenderPart::Dac).unwrap();
    assert_eq!(p.ops, vec![w(0, 0x2a), w(1, 0x11), wait(0), w(0, 0x2a), w(1, 0x22), wait(1), wait(1)]);
}

#[test]
fn render_part_fm_example() {
    let s = [0x61, 0x44, 0x01, 0x62, 0x63, 0x70, 0x7f, 0x66, 0x62];
    let r = render_part(&s, 0, s.len(), 7_670_454, 44_100, 0, RenderPart::Fm(0)).unwrap();
    assert_eq!(r.timeline_samples, 324 + 735 + 882 + 1 + 16);
    assert_eq!(r.timeline_samples, 1958);
    assert_eq!(r.commands, 6);
    assert_eq!(r.ym_writes, 0);
    assert_eq!(r.dac_writes, 0);
    assert_eq!(r.data_blocks, 0);
    assert_eq!(r.pcm.len(), 3916);
}

#[test]
fn render_part_new_bank_restarts_dac() {
    let s = [
        0x67, 0x66, 0x00, 0x01, 0x00, 0x00, 0x00, 0x11, 0x80, //
        0x67, 0x66, 0x00, 0x01, 0x00, 0x00, 0x00, 0x22, 0x80, 0x66,
    ];
    let r = render_part(&s, 0, s.len(), 7_670_454, 44_100, 0, RenderPart::Dac).unwrap();
    assert!(r.pcm.is_empty());
    assert_eq!(r.timeline_samples, 0);
    assert_eq!(r.peak, 0);
    assert_eq!(r.commands, 5);
    assert_eq!(r.ym_writes, 0);
    assert_eq!(r.dac_writes, 2);
    assert_eq!(r.data_blocks, 2);
    let p = plan_part(&s, 0, s.len(), RenderPart::Dac).unwrap();
    assert_eq!(p.ops, vec![w(0, 0x2a), w(1, 0x11), wait(0), w(0, 0x2a), w(1, 0x22), wait(0)]);
    let f = plan_part(&s, 0, s.len(), RenderPart::Fm(2)).unwrap();
    assert_eq!(f.ops, vec![wait(0), wait(0)]);
}

#[test]
fn seek_keeps_peak_and_tail() {
    let s = tone_stream();
    let rate = CLOCK / 144;
    let whole = render_part(&s, 0, s.len(), CLOCK, rate, 0, RenderPart::Fm(0)).unwrap();
    for seek in [1u64, 37, 500] {
        let r = render_part(&s, 0, s.len(), CLOCK, rate, seek, RenderPart::Fm(0)).unwrap();
        assert_eq!(r.peak, whole.peak);
        assert_eq!(r.timeline_samples, whole.timeline_samples);
        assert_eq!(&r.pcm[..], &whole.pcm[2 * seek as usize..]);
    }
    let past = render_part(&s, 0, s.len(), CLOCK, rate, 1_000_000, RenderPart::Fm(0)).unwrap();
    assert_eq!(past.peak, whole.peak);
}

#[test]
fn render_part_is_deterministic() {
    let s = tone_stream();
    let rate = CLOCK / 144;
    let a = render_part(&s, 0, s.len(), CLOCK, rate, 0, RenderPart::Fm(0)).unwrap();
    let b = render_part(&s, 0, s.len(), CLOCK, rate, 0, RenderPart::Fm(0)).unwrap();
    assert_eq!(a.pcm, b.pcm);
    assert_eq!(a.peak, b.peak);
}

#[test]
fn parts_succeed_alike() {
    let s = [0x61, 0x44, 0x01, 0x62, 0x63, 0x70, 0x7f, 0x66, 0x62];
    let first = render_part(&s, 0, s.len(), 7_670_454, 44_100, 0, RenderPart::Fm(0)).unwrap();
    for p in ALL_PARTS {
        let r = render_part(&s, 0, s.len(), 7_670_454, 44_100, 0, p).unwrap();
        assert_eq!(r.timeline_samples, first.timeline_samples);
        assert_eq!(r.commands, first.commands);
        assert_eq!(r.pcm.len(), first.pcm.len());
    }
    let bad = [0x62, 0x52, 0x28];
    for p in ALL_PARTS {
        assert_eq!(
            render_part(&bad, 0, bad.len(), 7_670_454, 44_100, 0, p).err(),
            Some(RenderError::TruncatedYmWrite)
        );
    }
}

#[test]
fn probe_lowest_clock() {
    assert_eq!(probe_chip(144), (1, 2));
    assert_eq!(probe_chip(u32::MAX), (u32::MAX / 144, 2));
}

#[test]
fn mix_error_leaves_mix_unchanged() {
    let mut m = ChannelMix::new();
    m.add_part(part(vec![1, 2], 7, 5, 3)).unwrap();
    assert_eq!(m.add_part(part(vec![9, 9, 9, 9], 8, 50, 40)), Err(MixError::TimelineMismatch));
    assert_eq!(m.timeline_samples, 7);
    assert_eq!(m.peak, 5);
    assert_eq!(m.commands_total, 3);
    assert_eq!(m.data_blocks, 1);
    let out = m.finish().ok().unwrap();
    assert_eq!(out.frames, 1);
}

#[test]
fn fm_parts_never_select_dac_register() {
    let s = [
        0x67, 0x66, 0x00, 2, 0, 0, 0, 0x2a, 0x2a, // bank 0 = [0x2a, 0x2a]
        0x52, 0x2a, 0x2a, // a DAC register write in the stream
        0x53, 0x2a, 0x10, // the same register on port 2
        0x52, 0x2b, 0x80, // DAC enable: global
        0x81, 0x80, 0x66,
    ];
    for ch in 0..6 {
        let p = plan_part(&s, 0, s.len(), RenderPart::Fm(ch)).unwrap();
        assert_eq!(p.ops, vec![w(0, 0x2b), w(1, 0x80), wait(1), wait(0)]);
    }
    let d = plan_part(&s, 0, s.len(), RenderPart::Dac).unwrap();
    assert_eq!(
        d.ops,
        vec![
            w(0, 0x2a), w(1, 0x2a), w(2, 0x2a), w(3, 0x10), w(0, 0x2b), w(1, 0x80),
            w(0, 0x2a), w(1, 0x2a), wait(1), w(0, 0x2a), w(1, 0x2a), wait(0),
        ]
    );
}
