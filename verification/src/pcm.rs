//! Turning native chip samples into 16-bit PCM: gain, clipping, peak
//! tracking, seek skipping and the final channel interleaving.

use vstd::prelude::*;

verus! {

/// The gain applied to the chip's output after dropping its low 8 bits.
pub const OUTPUT_GAIN: i32 = 128;

/// `x` clamped to the `i16` range.
pub open spec fn clamp_i16(x: int) -> i16 {
    if x < -32768 { -32768i16 } else if x > 32767 { 32767i16 } else { x as i16 }
}

/// The PCM sample of a native chip sample: its low 8 bits dropped
/// (arithmetic shift), times the gain, clamped to `i16`.
pub open spec fn spec_pcm_sample(x: i32) -> i16 {
    clamp_i16((x >> 8) as int * OUTPUT_GAIN as int)
}

/// The magnitude of `x` (defined for every `i32` but `i32::MIN`).
pub open spec fn abs_i32(x: i32) -> i32 {
    if x < 0 { (-x) as i32 } else { x }
}

/// `p` raised to the largest magnitude in `s`.
pub open spec fn peak_of(p: i32, s: Seq<i32>) -> i32
    decreases s.len(),
{
    if s.len() == 0 {
        p
    } else {
        let q = peak_of(p, s.drop_last());
        let a = abs_i32(s.last());
        if q >= a { q } else { a }
    }
}

/// The peak is the largest of `p` and the magnitudes `|x|` of the samples:
/// at least each of them, and equal to one of them.
pub proof fn lemma_peak_is_largest_magnitude(p: i32, s: Seq<i32>)
    requires
        no_min_sample(s),
    ensures
        peak_of(p, s) >= p,
        forall|i: int| 0 <= i < s.len() ==> peak_of(p, s) >= #[trigger] s[i] && peak_of(p, s) >= -s[i],
        peak_of(p, s) == p || exists|i: int| 0 <= i < s.len() && (peak_of(p, s) == #[trigger] s[i] || peak_of(p, s) == -s[i]),
    decreases s.len(),
{
    if s.len() > 0 {
        let t = s.drop_last();
        assert forall|i: int| 0 <= i < t.len() implies #[trigger] t[i] != i32::MIN by {
            assert(t[i] == s[i]);
        }
        lemma_peak_is_largest_magnitude(p, t);
        let q = peak_of(p, t);
        assert forall|i: int| 0 <= i < s.len() implies peak_of(p, s) >= #[trigger] s[i] && peak_of(p, s) >= -s[i] by {
            if i < t.len() {
                assert(t[i] == s[i]);
            } else {
                assert(s[i] == s.last());
                assert(s[i] != i32::MIN);
            }
        }
        if peak_of(p, s) != p {
            if q >= abs_i32(s.last()) {
                let j = choose|j: int| 0 <= j < t.len() && (q == #[trigger] t[j] || q == -t[j]);
                assert(t[j] == s[j]);
            } else {
                assert(s.last() == s[s.len() - 1]);
                assert(s.last() != i32::MIN);
            }
        }
    }
}

/// `s` holds no `i32::MIN`, whose magnitude does not fit an `i32`.
pub open spec fn no_min_sample(s: Seq<i32>) -> bool {
    forall|i: int| 0 <= i < s.len() ==> #[trigger] s[i] != i32::MIN
}

/// The PCM samples of the native samples `s`.
pub open spec fn pcm_samples(s: Seq<i32>) -> Seq<i16> {
    s.map_values(|x: i32| spec_pcm_sample(x))
}

/// A native sample becomes PCM by dropping its low 8 bits (rounding toward
/// minus infinity: `q` is the largest integer with `256 * q <= x`) and
/// multiplying by 128, saturating at the ends of the `i16` range.
pub proof fn lemma_pcm_sample_scale(x: i32)
    ensures
        ({
            let q = (x >> 8) as int;
            &&& 256 * q <= x < 256 * q + 256
            &&& -32768 <= q * 128 <= 32767 ==> spec_pcm_sample(x) == q * 128
            &&& q * 128 > 32767 ==> spec_pcm_sample(x) == 32767
            &&& q * 128 < -32768 ==> spec_pcm_sample(x) == -32768
        }),
{
    assert(256 * (x >> 8) <= x && x < 256 * (x >> 8) + 256) by (bit_vector);
}

/// The PCM sample of one native chip sample.
pub fn pcm_sample(x: i32) -> (y: i16)
    ensures
        y == spec_pcm_sample(x),
{
    let s = x >> 8;
    assert(-0x80_0000 <= x >> 8 <= 0x7f_ffff) by (bit_vector);
    let g = s * OUTPUT_GAIN;
    if g < -32768 {
        -32768
    } else if g > 32767 {
        32767
    } else {
        g as i16
    }
}

/// Takes in the `n` frames of `channels` samples each that the chip rendered
/// for one wait: raises `peak` to their largest magnitude, drops the first
/// frames still owed to the seek (`skip_frames`, which shrinks by the number
/// dropped) and appends the PCM samples of the rest to `out`.
pub fn absorb_frames(buf: &[i32], channels: usize, n: usize, out: &mut Vec<i16>, peak: &mut i32, skip_frames: &mut u64)
    requires
        buf@.len() == n * channels,
        no_min_sample(buf@),
    ensures
        *final(peak) == peak_of(*old(peak), buf@),
        *final(skip_frames) == *old(skip_frames) - (if *old(skip_frames) <= n { *old(skip_frames) as int } else { n as int }),
        final(out)@ == old(out)@ + pcm_samples(buf@.skip(
            (if *old(skip_frames) <= n { *old(skip_frames) as int } else { n as int }) * channels,
        )),
{
    let mut i: usize = 0;
    while i < buf.len()
        invariant
            0 <= i <= buf@.len(),
            no_min_sample(buf@),
            *peak == peak_of(*old(peak), buf@.take(i as int)),
        decreases buf.len() - i,
    {
        let x = buf[i];
        let a = if x < 0 { -x } else { x };
        if a > *peak {
            *peak = a;
        }
        assert(buf@.take(i + 1).drop_last() == buf@.take(i as int));
        i = i + 1;
    }
    assert(buf@.take(buf@.len() as int) == buf@);
    let skip: usize = if *skip_frames <= n as u64 { *skip_frames as usize } else { n };
    *skip_frames = *skip_frames - skip as u64;
    assert(skip * channels <= n * channels) by (nonlinear_arith)
        requires
            skip <= n,
    ;
    let start = skip * channels;
    let ghost out0 = out@;
    let mut j = start;
    while j < buf.len()
        invariant
            start <= j <= buf@.len(),
            out@ == out0 + pcm_samples(buf@.subrange(start as int, j as int)),
        decreases buf.len() - j,
    {
        let y = pcm_sample(buf[j]);
        out.push(y);
        assert(pcm_samples(buf@.subrange(start as int, j + 1)) == pcm_samples(buf@.subrange(start as int, j as int)).push(y));
        j = j + 1;
    }
    assert(buf@.subrange(start as int, buf@.len() as int) == buf@.skip(start as int));
}

/// The two little-endian bytes of a PCM sample.
pub open spec fn sample_bytes(v: i16) -> Seq<u8> {
    seq![((v as u16) % 256) as u8, ((v as u16) / 256) as u8]
}

/// The bytes of frame `i` of the first `k` streams: for each stream its left
/// then its right sample (`2i` and `2i + 1`).
pub open spec fn frame_bytes(streams: Seq<Seq<i16>>, i: int, k: int) -> Seq<u8>
    decreases k,
{
    if k <= 0 {
        seq![]
    } else {
        frame_bytes(streams, i, k - 1) + sample_bytes(streams[k - 1][2 * i]) + sample_bytes(streams[k - 1][2 * i + 1])
    }
}

/// The first `n` frames of all streams, frame after frame.
pub open spec fn interleaved(streams: Seq<Seq<i16>>, n: int) -> Seq<u8>
    decreases n,
{
    if n <= 0 {
        seq![]
    } else {
        interleaved(streams, n - 1) + frame_bytes(streams, n - 1, streams.len() as int)
    }
}

/// The little-endian bytes of `v`.
fn push_sample(out: &mut Vec<u8>, v: i16)
    ensures
        final(out)@ == old(out)@ + sample_bytes(v),
{
    let u = v as u16;
    out.push((u % 256) as u8);
    out.push((u / 256) as u8);
    assert(out@ =~= old(out)@ + sample_bytes(v));
}

/// Interleaves the first `frames` stereo frames of every stream into one
/// little-endian 16-bit PCM byte stream: frame by frame, within a frame
/// stream by stream, left sample before right.
pub fn interleave_pcm(streams: &Vec<Vec<i16>>, frames: usize) -> (r: Vec<u8>)
    requires
        forall|k: int| 0 <= k < streams@.len() ==> 2 * frames <= #[trigger] streams@[k]@.len(),
    ensures
        r@ == interleaved(streams.deep_view(), frames as int),
{
    let ghost sv = streams.deep_view();
    let mut out: Vec<u8> = match frames.checked_mul(4) {
        Some(f) => match f.checked_mul(streams.len()) {
            Some(cap) => Vec::with_capacity(cap),
            None => Vec::new(),
        },
        None => Vec::new(),
    };
    let mut i: usize = 0;
    while i < frames
        invariant
            i <= frames,
            sv == streams.deep_view(),
            forall|k: int| 0 <= k < streams@.len() ==> 2 * frames <= #[trigger] streams@[k]@.len(),
            out@ == interleaved(sv, i as int),
        decreases frames - i,
    {
        let ghost base = out@;
        let mut k: usize = 0;
        while k < streams.len()
            invariant
                i < frames,
                k <= streams@.len(),
                sv == streams.deep_view(),
                forall|k: int| 0 <= k < streams@.len() ==> 2 * frames <= #[trigger] streams@[k]@.len(),
                out@ == base + frame_bytes(sv, i as int, k as int),
            decreases streams.len() - k,
        {
            let s = &streams[k];
            let stream_len = s.len();
            assert(2 * frames <= stream_len);
            assert(sv[k as int] == s@);
            push_sample(&mut out, s[i * 2]);
            push_sample(&mut out, s[i * 2 + 1]);
            k = k + 1;
        }
        i = i + 1;
    }
    out
}

} // verus!
