//! Samples out of a decoded audio frame's planes: little-endian words read
//! in channel-interleaved order, as the bits of 32-bit floats.

use vstd::arithmetic::power2::{lemma2_to64, lemma_pow2_subtracts, lemma_pow2_unfold, pow2};
use vstd::prelude::*;

use crate::types::{SampleBits, SILENCE};

verus! {

/// How a decoded frame lays out its samples.
#[derive(Debug, Clone, Copy, PartialEq, Eq, Structural)]
pub enum SampleFormat {
    /// 32-bit floats, channels interleaved in one plane.
    F32Packed,
    /// 16-bit integers, channels interleaved in one plane.
    I16Packed,
    /// 16-bit integers, one plane per channel.
    I16Planar,
    /// 32-bit floats, one plane per channel.
    F32Planar,
    /// Any other layout: read as silence.
    Other,
}

/// The little-endian 32-bit word at `off`.
pub open spec fn le_word(b: Seq<u8>, off: int) -> u32 {
    (b[off] + 256 * b[off + 1] + 65536 * b[off + 2] + 16777216 * b[off + 3]) as u32
}

/// The little-endian signed 16-bit integer at `off`.
pub open spec fn le_i16(b: Seq<u8>, off: int) -> int {
    let u = b[off] + 256 * b[off + 1];
    if u >= 32768 {
        u - 65536
    } else {
        u
    }
}

/// The highest `e <= top` with `2^e <= m`, or zero.
pub open spec fn top_bit(m: nat, top: nat) -> nat
    decreases top,
{
    if top == 0 || pow2(top) <= m {
        top
    } else {
        top_bit(m, (top - 1) as nat)
    }
}

/// The IEEE-754 single-precision bits of `k / 32768`, for `k` in the range
/// of `i16`: sign, biased exponent and the 23 fraction bits of a value that
/// is exact in single precision.
pub open spec fn scaled_i16_bits(k: int) -> SampleBits {
    if k == 0 {
        0
    } else {
        let sign: int = if k < 0 {
            1
        } else {
            0
        };
        let m: nat = if k < 0 {
            (-k) as nat
        } else {
            k as nat
        };
        let e = top_bit(m, 15);
        (sign * 0x8000_0000 + (e + 112) * 0x80_0000 + (m - pow2(e)) * pow2((23 - e) as nat)) as u32
    }
}

/// Bytes per sample: four for floats, two for 16-bit integers.
pub open spec fn sample_width(float: bool) -> nat {
    if float {
        4
    } else {
        2
    }
}

/// The sample at byte `off`, as float bits.
pub open spec fn sample_at(float: bool, b: Seq<u8>, off: int) -> SampleBits {
    if float {
        le_word(b, off)
    } else {
        scaled_i16_bits(le_i16(b, off))
    }
}

/// The first `n` samples of one interleaved plane, as far as its bytes go.
pub open spec fn packed_samples(float: bool, plane: Seq<u8>, n: nat) -> Seq<SampleBits> {
    let have = plane.len() / sample_width(float);
    let count = if n < have {
        n
    } else {
        have
    };
    Seq::new(count, |i: int| sample_at(float, plane, i * sample_width(float)))
}

/// Sample `i` of the first `upto` channel planes, each where its plane holds it.
pub open spec fn planar_row(float: bool, planes: Seq<Seq<u8>>, i: nat, upto: nat) -> Seq<SampleBits>
    decreases upto,
{
    if upto == 0 {
        Seq::empty()
    } else {
        let p = planes[upto - 1];
        let w = sample_width(float);
        planar_row(float, planes, i, (upto - 1) as nat) + if (i + 1) * w <= p.len() {
            seq![sample_at(float, p, (i * w) as int)]
        } else {
            Seq::empty()
        }
    }
}

/// Samples `0..upto` of every channel plane, interleaved.
pub open spec fn planar_samples(float: bool, planes: Seq<Seq<u8>>, upto: nat, channels: nat) -> Seq<
    SampleBits,
>
    decreases upto,
{
    if upto == 0 {
        Seq::empty()
    } else {
        planar_samples(float, planes, (upto - 1) as nat, channels) + planar_row(
            float,
            planes,
            (upto - 1) as nat,
            channels,
        )
    }
}

/// The planes' bytes as plain values.
pub open spec fn planes_view(planes: Seq<Vec<u8>>) -> Seq<Seq<u8>> {
    planes.map_values(|p: Vec<u8>| p@)
}

/// The samples a frame of `samples` samples per channel and `channels`
/// channels in `format` gives, interleaved.
pub open spec fn spec_extract(format: SampleFormat, planes: Seq<Seq<u8>>, samples: nat, channels: nat) -> Seq<
    SampleBits,
> {
    match format {
        SampleFormat::F32Packed => packed_samples(true, planes[0], samples * channels),
        SampleFormat::I16Packed => packed_samples(false, planes[0], samples * channels),
        SampleFormat::F32Planar => planar_samples(true, planes, samples, channels),
        SampleFormat::I16Planar => planar_samples(false, planes, samples, channels),
        SampleFormat::Other => Seq::new(samples * channels, |i: int| SILENCE),
    }
}

proof fn lemma_planar_row_full(float: bool, planes: Seq<Seq<u8>>, i: nat, upto: nat)
    requires
        upto <= planes.len(),
        forall|c: int| 0 <= c < upto ==> (i + 1) * sample_width(float) <= #[trigger] planes[c].len(),
    ensures
        planar_row(float, planes, i, upto).len() == upto,
        forall|c: int|
            0 <= c < upto ==> #[trigger] planar_row(float, planes, i, upto)[c] == sample_at(
                float,
                planes[c],
                (i * sample_width(float)) as int,
            ),
    decreases upto,
{
    if upto > 0 {
        lemma_planar_row_full(float, planes, i, (upto - 1) as nat);
        assert((i + 1) * sample_width(float) <= planes[upto - 1].len());
    }
}

proof fn lemma_planar_samples_full(float: bool, planes: Seq<Seq<u8>>, upto: nat, channels: nat)
    requires
        channels <= planes.len(),
        forall|c: int| 0 <= c < channels ==> upto * sample_width(float) <= #[trigger] planes[c].len(),
    ensures
        planar_samples(float, planes, upto, channels).len() == upto * channels,
        forall|i: int, c: int|
            0 <= i < upto && 0 <= c < channels ==> #[trigger] planar_samples(
                float,
                planes,
                upto,
                channels,
            )[i * channels + c] == sample_at(float, planes[c], i * sample_width(float)),
    decreases upto,
{
    let w = sample_width(float);
    if upto == 0 {
        assert(upto * channels == 0);
    } else {
        let u = (upto - 1) as nat;
        assert forall|c: int| 0 <= c < channels implies u * w <= #[trigger] planes[c].len() by {
            assert(u * w <= upto * w) by (nonlinear_arith)
                requires
                    u <= upto,
            ;
        }
        lemma_planar_samples_full(float, planes, u, channels);
        assert forall|c: int| 0 <= c < channels implies (u + 1) * w <= #[trigger] planes[c].len() by {
            assert(u + 1 == upto);
        }
        lemma_planar_row_full(float, planes, u, channels);
        let prev = planar_samples(float, planes, u, channels);
        let row = planar_row(float, planes, u, channels);
        let all = planar_samples(float, planes, upto, channels);
        assert(all == prev + row);
        assert(u * channels + channels == upto * channels) by (nonlinear_arith)
            requires
                u + 1 == upto,
        ;
        assert forall|i: int, c: int| 0 <= i < upto && 0 <= c < channels implies #[trigger] all[i
            * channels + c] == sample_at(float, planes[c], i * w) by {
            if i < u {
                assert(i * channels + c < u * channels) by (nonlinear_arith)
                    requires
                        0 <= i < u,
                        0 <= c < channels,
                ;
                assert(0 <= i * channels) by (nonlinear_arith)
                    requires
                        0 <= i,
                        0 <= channels,
                ;
                assert(all[i * channels + c] == prev[i * channels + c]);
            } else {
                assert(i == u);
                assert(all[i * channels + c] == row[c]);
                assert((u * w) as int == i * w);
            }
        }
    }
}

/// Planar samples come out interleaved: when each of the `channels` planes
/// holds `samples` samples, extracting gives `samples * channels` values,
/// and value `i * channels + ch` is sample `i` of plane `ch`, for every
/// channel. No channel is dropped and none is read out of turn.
pub proof fn lemma_planar_extract_interleaves(
    format: SampleFormat,
    planes: Seq<Seq<u8>>,
    samples: nat,
    channels: nat,
)
    requires
        format == SampleFormat::F32Planar || format == SampleFormat::I16Planar,
        channels <= planes.len(),
        forall|c: int|
            0 <= c < channels ==> samples * sample_width(format == SampleFormat::F32Planar)
                <= #[trigger] planes[c].len(),
    ensures
        ({
            let float = format == SampleFormat::F32Planar;
            let out = spec_extract(format, planes, samples, channels);
            &&& out.len() == samples * channels
            &&& forall|i: int, ch: int|
                0 <= i < samples && 0 <= ch < channels ==> #[trigger] out[i * channels + ch]
                    == sample_at(float, planes[ch], i * sample_width(float))
        }),
{
    lemma_planar_samples_full(format == SampleFormat::F32Planar, planes, samples, channels);
}

/// Packed samples are read in order: when the one plane holds
/// `samples * channels` samples, extracting gives exactly that many, and
/// value `k` is the sample at position `k` of the plane.
pub proof fn lemma_packed_extract_in_order(
    format: SampleFormat,
    planes: Seq<Seq<u8>>,
    samples: nat,
    channels: nat,
)
    requires
        format == SampleFormat::F32Packed || format == SampleFormat::I16Packed,
        planes.len() >= 1,
        samples * channels * sample_width(format == SampleFormat::F32Packed) <= planes[0].len(),
    ensures
        ({
            let float = format == SampleFormat::F32Packed;
            let out = spec_extract(format, planes, samples, channels);
            &&& out.len() == samples * channels
            &&& forall|k: int|
                0 <= k < samples * channels ==> #[trigger] out[k] == sample_at(
                    float,
                    planes[0],
                    k * sample_width(float),
                )
        }),
{
    let float = format == SampleFormat::F32Packed;
    let n = samples * channels;
    let w = sample_width(float);
    assert(n <= planes[0].len() / w) by {
        vstd::arithmetic::div_mod::lemma_div_is_ordered((n * w) as int, planes[0].len() as int, w as int);
        vstd::arithmetic::div_mod::lemma_div_multiples_vanish(n as int, w as int);
    }
}

fn read_word(b: &Vec<u8>, off: usize) -> (r: u32)
    requires
        off + 4 <= b@.len(),
    ensures
        r == le_word(b@, off as int),
{
    let len = b.len();
    assert(off + 3 < len);
    b[off] as u32 + 256 * (b[off + 1] as u32) + 65536 * (b[off + 2] as u32) + 16777216 * (
    b[off + 3] as u32)
}

/// The single-precision bits of `k / 32768`.
pub fn i16_to_sample(k: i16) -> (r: SampleBits)
    ensures
        r == scaled_i16_bits(k as int),
{
    if k == 0 {
        return 0;
    }
    let sign: u32 = if k < 0 {
        1
    } else {
        0
    };
    let m: u32 = if k < 0 {
        (-(k as i32)) as u32
    } else {
        k as u32
    };
    proof {
        lemma2_to64();
    }
    let mut e: u32 = 15;
    let mut p: u32 = 32768;
    while e > 0 && p > m
        invariant
            1 <= m <= 32768,
            e <= 15,
            p as nat == pow2(e as nat),
            top_bit(m as nat, e as nat) == top_bit(m as nat, 15),
            e < 15 ==> m < 2 * p,
        decreases e,
    {
        proof {
            lemma_pow2_unfold(e as nat);
        }
        p = p / 2;
        e = e - 1;
    }
    assert(top_bit(m as nat, e as nat) == e as nat);
    assert(p <= m) by {
        if e == 0 {
            assert(p == 1);
        }
    }
    assert(m - p < p) by {
        if e == 15 {
            assert(m == 32768);
        }
    }
    // 2^23 is a multiple of p = 2^e, with quotient 2^(23 - e).
    proof {
        lemma_pow2_subtracts(e as nat, 23);
        vstd::arithmetic::power2::lemma_pow2_adds(e as nat, (23 - e) as nat);
        assert(pow2(23) == pow2(e as nat) * pow2((23 - e) as nat));
        vstd::arithmetic::div_mod::lemma_mod_multiples_basic(
            pow2((23 - e) as nat) as int,
            p as int,
        );
        assert(pow2((23 - e) as nat) * (p as int) == (p as int) * pow2((23 - e) as nat))
            by (nonlinear_arith);
    }
    let scale: u32 = 0x80_0000 / p;
    assert(scale as nat == pow2((23 - e) as nat));
    proof {
        vstd::arithmetic::div_mod::lemma_fundamental_div_mod(0x80_0000, p as int);
        assert(p * scale == 0x80_0000);
    }
    assert((m - p) * scale < 0x80_0000) by (nonlinear_arith)
        requires
            m - p < p,
            p * scale == 0x80_0000,
            p > 0,
    ;
    let mantissa: u32 = (m - p) * scale;
    sign * 0x8000_0000 + (e + 112) * 0x80_0000 + mantissa
}

fn read_sample(float: bool, b: &Vec<u8>, off: usize) -> (r: SampleBits)
    requires
        off + sample_width(float) <= b@.len(),
    ensures
        r == sample_at(float, b@, off as int),
{
    if float {
        read_word(b, off)
    } else {
        let len = b.len();
        assert(off + 1 < len);
        let u: u32 = b[off] as u32 + 256 * (b[off + 1] as u32);
        let k: i32 = if u >= 32768 {
            u as i32 - 65536
        } else {
            u as i32
        };
        i16_to_sample(k as i16)
    }
}

fn read_packed(float: bool, plane: &Vec<u8>, n: usize) -> (r: Vec<SampleBits>)
    ensures
        r@ == packed_samples(float, plane@, n as nat),
{
    let w: usize = if float {
        4
    } else {
        2
    };
    let plen = plane.len();
    let have = plen / w;
    let count = if n < have {
        n
    } else {
        have
    };
    let mut out: Vec<SampleBits> = Vec::new();
    let mut i: usize = 0;
    while i < count
        invariant
            w == sample_width(float),
            plen == plane@.len(),
            count <= plane@.len() / (w as nat),
            i <= count,
            out@ =~= Seq::new(i as nat, |j: int| sample_at(float, plane@, j * sample_width(float))),
        decreases count - i,
    {
        assert((i + 1) * w <= plane@.len()) by (nonlinear_arith)
            requires
                i < count,
                count <= plane@.len() / (w as nat),
                w > 0,
        ;
        out.push(read_sample(float, plane, i * w));
        i = i + 1;
    }
    out
}

fn read_planar(float: bool, planes: &Vec<Vec<u8>>, samples: usize, channels: usize) -> (r: Vec<
    SampleBits,
>)
    requires
        channels <= planes@.len(),
    ensures
        r@ == planar_samples(float, planes_view(planes@), samples as nat, channels as nat),
{
    let w: usize = if float {
        4
    } else {
        2
    };
    let ghost pv = planes_view(planes@);
    let mut out: Vec<SampleBits> = Vec::new();
    let mut i: usize = 0;
    while i < samples
        invariant
            w == sample_width(float),
            channels <= planes@.len(),
            pv == planes_view(planes@),
            i <= samples,
            out@ == planar_samples(float, pv, i as nat, channels as nat),
        decreases samples - i,
    {
        let ghost before = out@;
        let mut ch: usize = 0;
        while ch < channels
            invariant
                w == sample_width(float),
                channels <= planes@.len(),
                pv == planes_view(planes@),
                i < samples,
                ch <= channels,
                out@ == before + planar_row(float, pv, i as nat, ch as nat),
            decreases channels - ch,
        {
            let plane = &planes[ch];
            assert(pv[ch as int] == plane@);
            let len = plane.len();
            if i < len / w && (i + 1) * w <= len {
                out.push(read_sample(float, plane, i * w));
            } else {
                assert(!((i + 1) * w <= plane@.len())) by (nonlinear_arith)
                    requires
                        !(i < len / w && (i + 1) * w <= len),
                        len == plane@.len(),
                        w > 0,
                ;
            }
            ch = ch + 1;
        }
        i = i + 1;
    }
    out
}

/// The samples of a decoded frame with `samples` samples per channel and
/// `channels` channels, laid out as `format` says in `planes`, interleaved
/// by channel and converted to float bits; 16-bit integers become
/// `k / 32768`. A sample whose bytes lie past the end of its plane is left
/// out; any other format gives silence.
pub fn extract_samples(format: SampleFormat, planes: &Vec<Vec<u8>>, samples: usize, channels: usize) -> (r:
    Vec<SampleBits>)
    requires
        samples * channels <= usize::MAX,
        (format == SampleFormat::F32Packed || format == SampleFormat::I16Packed) ==> planes@.len()
            >= 1,
        (format == SampleFormat::F32Planar || format == SampleFormat::I16Planar) ==> planes@.len()
            >= channels,
    ensures
        r@ == spec_extract(format, planes_view(planes@), samples as nat, channels as nat),
{
    match format {
        SampleFormat::F32Packed => {
            let r = read_packed(true, &planes[0], samples * channels);
            assert(planes_view(planes@)[0] == planes@[0]@);
            r
        },
        SampleFormat::I16Packed => {
            let r = read_packed(false, &planes[0], samples * channels);
            assert(planes_view(planes@)[0] == planes@[0]@);
            r
        },
        SampleFormat::F32Planar => read_planar(true, planes, samples, channels),
        SampleFormat::I16Planar => read_planar(false, planes, samples, channels),
        SampleFormat::Other => {
            let n = samples * channels;
            let mut out: Vec<SampleBits> = Vec::new();
            while out.len() < n
                invariant
                    out@ =~= Seq::new(out@.len(), |i: int| SILENCE),
                    out@.len() <= n,
                decreases n - out@.len(),
            {
                out.push(SILENCE);
            }
            out
        },
    }
}

} // verus!
