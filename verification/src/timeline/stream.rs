//! Streams of a media file and their time bases: conversions between stream
//! time-base units, microseconds and frame numbers, in exact fractions.

use vstd::prelude::*;

use crate::rational::{
    abs, fits, lemma_round_error, lemma_round_near, lemma_round_same_value, lemma_trunc_same_value, ratio_div, ratio_div_int,
    ratio_mul, ratio_mul_int, ratio_new, ratio_round, ratio_to_i64, ratio_to_integer,
    round_half_away, round_quotient, trunc_div, Rational,
};
use crate::timeline::frame::{Microseconds, TimebaseUnits, AV_TIME_BASE};

verus! {

/// Microseconds of `pts` time-base units, rounded towards zero.
pub open spec fn spec_pts_to_micros(pts: int, time_base: Rational) -> int {
    trunc_div(pts * time_base.numer * 1_000_000, time_base.denom as int)
}

/// Time-base units of `micros` microseconds, rounded to the nearest.
pub open spec fn spec_micros_to_units(micros: int, time_base: Rational) -> int {
    round_quotient(micros * time_base.denom, 1_000_000 * time_base.numer)
}

/// Microseconds at which frame `frame` starts, rounded to the nearest.
pub open spec fn spec_frame_to_micros(frame: int, frame_rate: Rational) -> int {
    round_quotient(frame * frame_rate.denom * 1_000_000, frame_rate.numer as int)
}

/// The frame shown `micros` microseconds in, rounded to the nearest.
pub open spec fn spec_micros_to_frame(micros: int, frame_rate: Rational) -> int {
    round_half_away(micros * frame_rate.numer, 1_000_000 * frame_rate.denom)
}

/// Converting a frame number to its start time and back gives the frame
/// number again, for any frame rate below a million frames a second.
pub proof fn lemma_frame_time_round_trip(frame: nat, frame_rate: Rational)
    requires
        frame_rate.denom > 0,
        0 < frame_rate.numer < 1_000_000 * frame_rate.denom,
    ensures
        spec_micros_to_frame(spec_frame_to_micros(frame as int, frame_rate), frame_rate) == frame,
{
    let d = frame_rate.denom as int;
    let f = frame_rate.numer as int;
    let n = frame * d * 1_000_000;
    let t = spec_frame_to_micros(frame as int, frame_rate);
    assert(t == round_half_away(n, f));
    lemma_round_error(n, f);
    assert(t * f - frame * (1_000_000 * d) == t * f - n) by (nonlinear_arith)
        requires
            n == frame * d * 1_000_000,
    ;
    lemma_round_near(t * f, 1_000_000 * d, frame as int);
}

/// A stream's `numer / denom` pair as a fraction, when `denom` is not zero.
pub open spec fn pair_fraction(r: Rational, pair: (i32, i32)) -> bool {
    r.lowest() && r.equals(pair.0 as int, pair.1 as int)
}

/// Conversions shared by every stream, through its time base.
pub trait StreamInfo {
    spec fn spec_index(&self) -> usize;

    spec fn spec_time_base(&self) -> Rational;

    spec fn spec_pts_duration(&self) -> TimebaseUnits;

    fn index(&self) -> (r: usize)
        ensures
            r == self.spec_index(),
    ;

    fn time_base(&self) -> (r: Rational)
        ensures
            r == self.spec_time_base(),
    ;

    fn pts_duration(&self) -> (r: TimebaseUnits)
        ensures
            r == self.spec_pts_duration(),
    ;

    /// `pts` in microseconds, rounded towards zero.
    fn pts_to_microseconds(&self, pts: TimebaseUnits) -> (r: Option<Microseconds>)
        requires
            self.spec_time_base().lowest(),
            pts.0 > i64::MIN,
            fits(pts.0 * self.spec_time_base().numer * 1_000_000),
        ensures
            r == Some(Microseconds(spec_pts_to_micros(pts.0 as int, self.spec_time_base()) as i64)),
    {
        let tb = self.time_base();
        let seconds = ratio_mul(Rational::from_integer(pts.0), tb);
        proof {
            assert(fits(pts.0 * tb.numer)) by (nonlinear_arith)
                requires
                    fits(pts.0 * tb.numer * 1_000_000),
            ;
            assert(fits(seconds.numer * 1_000_000)) by (nonlinear_arith)
                requires
                    fits(pts.0 * tb.numer * 1_000_000),
                    abs(seconds.numer as int) <= abs(pts.0 * tb.numer),
            ;
        }
        let micros = ratio_mul_int(seconds, AV_TIME_BASE);
        proof {
            assert(micros.numer * tb.denom == pts.0 * tb.numer * 1_000_000 * micros.denom)
                by (nonlinear_arith)
                requires
                    micros.numer * seconds.denom == seconds.numer * 1_000_000 * micros.denom,
                    seconds.numer * (1 * tb.denom) == (pts.0 * tb.numer) * seconds.denom,
                    seconds.denom > 0,
            ;
            lemma_trunc_same_value(
                micros.numer as int,
                micros.denom as int,
                pts.0 * tb.numer * 1_000_000,
                tb.denom as int,
            );
        }
        match ratio_to_i64(micros) {
            Some(m) => Some(Microseconds(m)),
            None => None,
        }
    }

    /// Time-base units of `micros` microseconds, rounded to the nearest.
    fn microseconds_to_timestamp(&self, micros: Microseconds) -> (r: i64)
        requires
            self.spec_time_base().lowest(),
            self.spec_time_base().numer != 0,
            micros.0 > i64::MIN,
            fits(micros.0 * self.spec_time_base().denom),
            fits(1_000_000 * self.spec_time_base().numer),
        ensures
            r == spec_micros_to_units(micros.0 as int, self.spec_time_base()),
    {
        let tb = self.time_base();
        let seconds = ratio_new(micros.0, AV_TIME_BASE);
        proof {
            assert(fits(seconds.numer * tb.denom)) by (nonlinear_arith)
                requires
                    fits(micros.0 * tb.denom),
                    abs(seconds.numer as int) <= abs(micros.0 as int),
                    tb.denom > 0,
            ;
            assert(fits(seconds.denom * tb.numer)) by (nonlinear_arith)
                requires
                    fits(1_000_000 * tb.numer),
                    0 < seconds.denom <= 1_000_000,
            ;
        }
        let units = ratio_div(seconds, tb);
        let rounded = ratio_round(units);
        proof {
            let n = micros.0 * tb.denom;
            let d = 1_000_000 * tb.numer;
            if tb.numer > 0 {
                assert(units.numer * d == n * units.denom) by (nonlinear_arith)
                    requires
                        units.numer * (seconds.denom * tb.numer) == (seconds.numer * tb.denom)
                            * units.denom,
                        seconds.numer * 1_000_000 == micros.0 * seconds.denom,
                        seconds.denom > 0,
                        tb.numer != 0,
                        n == micros.0 * tb.denom,
                        d == 1_000_000 * tb.numer,
                ;
                assert(d > 0) by (nonlinear_arith)
                    requires
                        d == 1_000_000 * tb.numer,
                        tb.numer > 0,
                ;
                lemma_round_same_value(units.numer as int, units.denom as int, n, d);
            } else {
                assert(units.numer * (-d) == (-n) * units.denom) by (nonlinear_arith)
                    requires
                        units.numer * (seconds.denom * tb.numer) == (seconds.numer * tb.denom)
                            * units.denom,
                        seconds.numer * 1_000_000 == micros.0 * seconds.denom,
                        seconds.denom > 0,
                        tb.numer != 0,
                        n == micros.0 * tb.denom,
                        d == 1_000_000 * tb.numer,
                ;
                assert(-d > 0) by (nonlinear_arith)
                    requires
                        d == 1_000_000 * tb.numer,
                        tb.numer < 0,
                ;
                lemma_round_same_value(units.numer as int, units.denom as int, -n, -d);
            }
        }
        ratio_to_integer(rounded)
    }

    /// The stream's duration in microseconds.
    fn duration(&self) -> (r: Microseconds)
        requires
            self.spec_time_base().lowest(),
            self.spec_pts_duration().0 > i64::MIN,
            fits(self.spec_pts_duration().0 * self.spec_time_base().numer * 1_000_000),
        ensures
            r.0 == spec_pts_to_micros(self.spec_pts_duration().0 as int, self.spec_time_base()),
    {
        match self.pts_to_microseconds(self.pts_duration()) {
            Some(m) => m,
            None => Microseconds(0),
        }
    }
}

/// A video stream: its time base, duration, picture size and frame rate.
#[derive(Debug, Clone, Copy)]
pub struct VideoStream {
    index: usize,
    time_base: Rational,
    pts_duration: TimebaseUnits,
    pub width: u32,
    pub height: u32,
    frame_rate: Rational,
}

/// The frame rate a stream declares: the average rate when its denominator
/// is not zero, else the real base rate when that one's is not, else 30.
pub open spec fn spec_frame_rate_choice(
    r: Rational,
    avg_frame_rate: (i32, i32),
    r_frame_rate: (i32, i32),
) -> bool {
    if avg_frame_rate.1 != 0 {
        pair_fraction(r, avg_frame_rate)
    } else if r_frame_rate.1 != 0 {
        pair_fraction(r, r_frame_rate)
    } else {
        r == Rational { numer: 30, denom: 1 }
    }
}

/// The average frame rate wins whenever it is valid: a stream whose average
/// rate has a nonzero denominator runs at that rate in lowest terms, whatever
/// its real base rate says. Only without a valid average rate is the real
/// base rate taken, and without either the rate is 30 frames a second.
pub proof fn lemma_average_frame_rate_wins(
    r: Rational,
    avg_frame_rate: (i32, i32),
    r_frame_rate: (i32, i32),
)
    requires
        spec_frame_rate_choice(r, avg_frame_rate, r_frame_rate),
    ensures
        avg_frame_rate.1 != 0 ==> r.lowest() && r.numer * avg_frame_rate.1 == avg_frame_rate.0
            * r.denom,
        avg_frame_rate.1 == 0 && r_frame_rate.1 != 0 ==> r.lowest() && r.numer * r_frame_rate.1
            == r_frame_rate.0 * r.denom,
        avg_frame_rate.1 == 0 && r_frame_rate.1 == 0 ==> r.numer == 30 && r.denom == 1,
{
}

impl VideoStream {
    pub closed spec fn spec_frame_rate(&self) -> Rational {
        self.frame_rate
    }

    pub closed spec fn spec_width(&self) -> u32 {
        self.width
    }

    pub closed spec fn spec_height(&self) -> u32 {
        self.height
    }

    /// A video stream from what the demuxer reports: its index, time base
    /// (`numer / denom`), duration in time-base units, picture size, and
    /// average and real base frame rates.
    pub fn new(
        index: usize,
        time_base: (i32, i32),
        duration: i64,
        width: u32,
        height: u32,
        avg_frame_rate: (i32, i32),
        r_frame_rate: (i32, i32),
    ) -> (r: Self)
        requires
            time_base.1 != 0,
        ensures
            r.spec_index() == index,
            pair_fraction(r.spec_time_base(), time_base),
            r.spec_pts_duration() == TimebaseUnits(duration),
            r.spec_width() == width,
            r.spec_height() == height,
            spec_frame_rate_choice(r.spec_frame_rate(), avg_frame_rate, r_frame_rate),
            r.spec_frame_rate().lowest(),
    {
        let frame_rate = if avg_frame_rate.1 != 0 {
            ratio_new(avg_frame_rate.0 as i64, avg_frame_rate.1 as i64)
        } else if r_frame_rate.1 != 0 {
            ratio_new(r_frame_rate.0 as i64, r_frame_rate.1 as i64)
        } else {
            Rational::from_integer(30)
        };
        VideoStream {
            index,
            time_base: ratio_new(time_base.0 as i64, time_base.1 as i64),
            pts_duration: TimebaseUnits(duration),
            width,
            height,
            frame_rate,
        }
    }

    pub fn width(&self) -> (r: u32)
        ensures
            r == self.spec_width(),
    {
        self.width
    }

    pub fn height(&self) -> (r: u32)
        ensures
            r == self.spec_height(),
    {
        self.height
    }

    /// The frame rate of the video stream
    pub fn frame_rate(&self) -> (r: Rational)
        ensures
            r == self.spec_frame_rate(),
    {
        self.frame_rate
    }

    /// The time at which frame `frame_number` starts, rounded to the nearest
    /// microsecond.
    pub fn frame_to_microseconds(&self, frame_number: u64) -> (r: Microseconds)
        requires
            self.spec_frame_rate().lowest(),
            self.spec_frame_rate().numer != 0,
            frame_number as i64 > i64::MIN,
            fits((frame_number as i64) * self.spec_frame_rate().denom * 1_000_000),
        ensures
            r.0 == spec_frame_to_micros(frame_number as i64 as int, self.spec_frame_rate()),
    {
        let fr = self.frame_rate;
        let f: i64 = frame_number as i64;
        let frames = ratio_new(f, 1);
        proof {
            assert(fits(f * fr.denom)) by (nonlinear_arith)
                requires
                    fits(f * fr.denom * 1_000_000),
                    fr.denom > 0,
            ;
            assert(frames.numer == f) by (nonlinear_arith)
                requires
                    frames.numer * 1 == f * frames.denom,
                    frames.denom <= 1,
                    frames.denom > 0,
            ;
            assert(frames.denom == 1);
        }
        let seconds = ratio_div(frames, fr);
        proof {
            assert(fits(seconds.numer * 1_000_000)) by (nonlinear_arith)
                requires
                    fits(f * fr.denom * 1_000_000),
                    abs(seconds.numer as int) <= abs(f * fr.denom),
            ;
        }
        let micros = ratio_mul_int(seconds, AV_TIME_BASE);
        let rounded = ratio_round(micros);
        proof {
            let n = f * fr.denom * 1_000_000;
            let d = fr.numer as int;
            assert(micros.numer * d == n * micros.denom) by (nonlinear_arith)
                requires
                    micros.numer * seconds.denom == seconds.numer * 1_000_000 * micros.denom,
                    seconds.numer * (1 * fr.numer) == (f * fr.denom) * seconds.denom,
                    seconds.denom > 0,
                    n == f * fr.denom * 1_000_000,
                    d == fr.numer,
            ;
            if d > 0 {
                lemma_round_same_value(micros.numer as int, micros.denom as int, n, d);
            } else {
                assert(micros.numer * (-d) == (-n) * micros.denom) by (nonlinear_arith)
                    requires
                        micros.numer * d == n * micros.denom,
                ;
                lemma_round_same_value(micros.numer as int, micros.denom as int, -n, -d);
            }
        }
        Microseconds(ratio_to_integer(rounded))
    }

    /// The frame shown `microseconds` in, rounded to the nearest frame.
    pub fn microseconds_to_frame(&self, microseconds: Microseconds) -> (r: u64)
        requires
            self.spec_frame_rate().lowest(),
            microseconds.0 > i64::MIN,
            fits(microseconds.0 * self.spec_frame_rate().numer),
            fits(1_000_000 * self.spec_frame_rate().denom),
        ensures
            r == spec_micros_to_frame(microseconds.0 as int, self.spec_frame_rate()) as u64,
    {
        let fr = self.frame_rate;
        let us = ratio_new(microseconds.0, 1);
        proof {
            assert(us.numer == microseconds.0) by (nonlinear_arith)
                requires
                    us.numer * 1 == microseconds.0 * us.denom,
                    us.denom <= 1,
                    us.denom > 0,
            ;
            assert(us.denom == 1);
        }
        let seconds = ratio_div_int(us, AV_TIME_BASE);
        proof {
            assert(fits(seconds.numer * fr.numer)) by (nonlinear_arith)
                requires
                    fits(microseconds.0 * fr.numer),
                    abs(seconds.numer as int) <= abs(microseconds.0 as int),
            ;
            assert(fits(seconds.denom * fr.denom)) by (nonlinear_arith)
                requires
                    fits(1_000_000 * fr.denom),
                    0 < seconds.denom <= 1_000_000,
                    fr.denom > 0,
            ;
        }
        let frames = ratio_mul(seconds, fr);
        let rounded = ratio_round(frames);
        proof {
            let n = microseconds.0 * fr.numer;
            let d = 1_000_000 * fr.denom;
            assert(frames.numer * d == n * frames.denom) by (nonlinear_arith)
                requires
                    frames.numer * (seconds.denom * fr.denom) == (seconds.numer * fr.numer)
                        * frames.denom,
                    seconds.numer * (1 * 1_000_000) == microseconds.0 * seconds.denom,
                    seconds.denom > 0,
                    fr.denom > 0,
                    n == microseconds.0 * fr.numer,
                    d == 1_000_000 * fr.denom,
            ;
            assert(d > 0) by (nonlinear_arith)
                requires
                    d == 1_000_000 * fr.denom,
                    fr.denom > 0,
            ;
            lemma_round_same_value(frames.numer as int, frames.denom as int, n, d);
        }
        ratio_to_integer(rounded) as u64
    }
}

impl StreamInfo for VideoStream {
    closed spec fn spec_index(&self) -> usize {
        self.index
    }

    closed spec fn spec_time_base(&self) -> Rational {
        self.time_base
    }

    closed spec fn spec_pts_duration(&self) -> TimebaseUnits {
        self.pts_duration
    }

    fn index(&self) -> (r: usize) {
        self.index
    }

    fn time_base(&self) -> (r: Rational) {
        self.time_base
    }

    fn pts_duration(&self) -> (r: TimebaseUnits) {
        self.pts_duration
    }
}

/// An audio stream: its time base, duration, channels and sample rate.
#[derive(Debug, Clone, Copy)]
pub struct AudioStream {
    index: usize,
    time_base: Rational,
    pts_duration: TimebaseUnits,
    channels: u16,
    sample_rate: u32,
}

impl AudioStream {
    pub closed spec fn spec_channels(&self) -> u16 {
        self.channels
    }

    pub closed spec fn spec_sample_rate(&self) -> u32 {
        self.sample_rate
    }

    /// An audio stream from what the demuxer reports: its index, time base
    /// (`numer / denom`), duration in time-base units, channels and rate.
    pub fn new(index: usize, time_base: (i32, i32), duration: i64, channels: u16, sample_rate: u32) -> (r:
        Self)
        requires
            time_base.1 != 0,
        ensures
            r.spec_index() == index,
            pair_fraction(r.spec_time_base(), time_base),
            r.spec_pts_duration() == TimebaseUnits(duration),
            r.spec_channels() == channels,
            r.spec_sample_rate() == sample_rate,
    {
        AudioStream {
            index,
            time_base: ratio_new(time_base.0 as i64, time_base.1 as i64),
            pts_duration: TimebaseUnits(duration),
            channels,
            sample_rate,
        }
    }

    pub fn channels(&self) -> (r: u16)
        ensures
            r == self.spec_channels(),
    {
        self.channels
    }

    pub fn sample_rate(&self) -> (r: u32)
        ensures
            r == self.spec_sample_rate(),
    {
        self.sample_rate
    }
}

impl StreamInfo for AudioStream {
    closed spec fn spec_index(&self) -> usize {
        self.index
    }

    closed spec fn spec_time_base(&self) -> Rational {
        self.time_base
    }

    closed spec fn spec_pts_duration(&self) -> TimebaseUnits {
        self.pts_duration
    }

    fn index(&self) -> (r: usize) {
        self.index
    }

    fn time_base(&self) -> (r: Rational) {
        self.time_base
    }

    fn pts_duration(&self) -> (r: TimebaseUnits) {
        self.pts_duration
    }
}

/// A stream of either kind.
#[derive(Debug, Clone, Copy)]
pub enum Stream {
    Video(VideoStream),
    Audio(AudioStream),
}

} // verus!
