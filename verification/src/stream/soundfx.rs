//! A retriggerable, polyphonic PCM stream for short sound effects.
//!
//! [`SoundFx`] keeps a fixed pool of voices so repeated [`SoundFx::trigger`]
//! calls can overlap without allocating.

use std::marker::PhantomData;

use vstd::prelude::*;

use crate::error::{outcome, stream_message, AudioError, ErrorView};

verus! {

/// The position of a voice that is not playing.
pub const INACTIVE: u64 = 0xffff_ffff_ffff_ffff;

/// Arithmetic on the samples of a sound effect, supplied by the host.
pub trait EffectMath<T> {
    /// Sum of two samples.
    fn add_samples(sum: T, sample: T) -> T;

    /// A mixed sample, attenuated for the number of voices in it.
    fn share(sample: T, voices: usize) -> T;

    /// The louder of a peak so far and a sample.
    fn louder(peak: T, sample: T) -> T;

    /// A sample after the fast limiter, for a frame with the given peak.
    fn soft_clip(sample: T, peak: T) -> T;

    /// The peak follower after a frame with the given peak.
    fn follow(peak: T, envelope: T) -> T;

    /// Whether the sustain limiter acts at the given envelope.
    fn is_hot(envelope: T) -> bool;

    /// A sample after the sustain limiter.
    fn sustain(sample: T, envelope: T) -> T;
}

/// Why the given parameters make no sound effect, if they make none.
pub open spec fn effect_error(
    samples: nat,
    channels: u16,
    sample_rate: u32,
    voice_count: usize,
) -> Option<ErrorView> {
    if channels == 0 {
        Some(ErrorView::Stream("SoundFx requires at least one channel"@))
    } else if sample_rate == 0 {
        Some(ErrorView::Stream("SoundFx requires a non-zero sample rate"@))
    } else if voice_count == 0 {
        Some(ErrorView::Stream("SoundFx requires at least one voice"@))
    } else if samples == 0 || samples % (channels as nat) != 0 {
        Some(ErrorView::Stream("SoundFx PCM must contain complete, non-empty frames"@))
    } else {
        None
    }
}

/// Where a voice is `steps` frames later, in an effect of `frames` frames.
pub open spec fn voice_after(position: u64, steps: nat, frames: u64) -> u64 {
    if position == INACTIVE || position + steps >= frames {
        INACTIVE
    } else {
        (position + steps) as u64
    }
}

/// Where all voices are `steps` frames later.
pub open spec fn voices_after(positions: Seq<u64>, steps: nat, frames: u64) -> Seq<u64> {
    Seq::new(positions.len(), |i: int| voice_after(positions[i], steps, frames))
}

/// Whether `index` is the first idle voice.
pub open spec fn first_idle(positions: Seq<u64>, index: int) -> bool {
    &&& 0 <= index < positions.len()
    &&& positions[index] == INACTIVE
    &&& forall|i: int| 0 <= i < index ==> #[trigger] positions[i] != INACTIVE
}

/// Whether `index` is the most progressed voice; the first one, where several
/// are equally far.
pub open spec fn most_progressed(positions: Seq<u64>, index: int) -> bool {
    &&& 0 <= index < positions.len()
    &&& forall|i: int| 0 <= i < positions.len() ==> #[trigger] positions[i] <= positions[index]
    &&& forall|i: int| 0 <= i < index ==> #[trigger] positions[i] < positions[index]
}

/// Whether `index` is the voice that a trigger starts: the first idle one, or
/// the most progressed one where none is idle.
pub open spec fn triggered_voice(positions: Seq<u64>, index: int) -> bool {
    if positions.contains(INACTIVE) {
        first_idle(positions, index)
    } else {
        most_progressed(positions, index)
    }
}

/// Number of voices that are playing.
pub open spec fn active_voices(positions: Seq<u64>) -> nat
    decreases positions.len(),
{
    if positions.len() == 0 {
        0
    } else {
        active_voices(positions.drop_last()) + (if positions.last() == INACTIVE {
            0nat
        } else {
            1nat
        })
    }
}

/// Whether `sum` is what adding up one channel of all playing voices, in their
/// order and from silence, may give.
pub open spec fn summed<T: Default, K: EffectMath<T>>(
    pcm: Seq<T>,
    positions: Seq<u64>,
    channels: int,
    channel: int,
    sum: T,
) -> bool
    decreases positions.len(),
{
    if positions.len() == 0 {
        call_ensures(T::default, (), sum)
    } else if positions.last() == INACTIVE {
        summed::<T, K>(pcm, positions.drop_last(), channels, channel, sum)
    } else {
        exists|partial: T|
            summed::<T, K>(pcm, positions.drop_last(), channels, channel, partial)
                && #[trigger] call_ensures(
                K::add_samples,
                (partial, pcm[positions.last() * channels + channel]),
                sum,
            )
    }
}

/// Whether `peak` is what following the loudest sample of a frame may give.
pub open spec fn peaked<T: Default, K: EffectMath<T>>(frame: Seq<T>, peak: T) -> bool
    decreases frame.len(),
{
    if frame.len() == 0 {
        call_ensures(T::default, (), peak)
    } else {
        exists|earlier: T|
            peaked::<T, K>(frame.drop_last(), earlier) && #[trigger] call_ensures(
                K::louder,
                (earlier, frame.last()),
                peak,
            )
    }
}

/// [`limited`] with its intermediate values.
pub open spec fn limited_through<T: Default, K: EffectMath<T>>(
    frame: Seq<T>,
    envelope: T,
    peak: T,
    clipped: Seq<T>,
    clipped_peak: T,
    hot: bool,
    output: Seq<T>,
    next_envelope: T,
) -> bool {
    &&& peaked::<T, K>(frame, peak)
    &&& clipped.len() == frame.len()
    &&& forall|i: int|
        0 <= i < frame.len() ==> call_ensures(
            K::soft_clip,
            (frame[i], peak),
            #[trigger] clipped[i],
        )
    &&& peaked::<T, K>(clipped, clipped_peak)
    &&& call_ensures(K::follow, (clipped_peak, envelope), next_envelope)
    &&& call_ensures(K::is_hot, (next_envelope,), hot)
    &&& output.len() == frame.len()
    &&& hot ==> forall|i: int|
        0 <= i < frame.len() ==> call_ensures(
            K::sustain,
            (clipped[i], next_envelope),
            #[trigger] output[i],
        )
    &&& !hot ==> output == clipped
}

/// Whether the limiter may turn `frame` into `output` and the envelope into
/// `next_envelope`.
pub open spec fn limited<T: Default, K: EffectMath<T>>(
    frame: Seq<T>,
    envelope: T,
    output: Seq<T>,
    next_envelope: T,
) -> bool {
    exists|peak: T, clipped: Seq<T>, clipped_peak: T, hot: bool| #[trigger]
        limited_through::<T, K>(
            frame,
            envelope,
            peak,
            clipped,
            clipped_peak,
            hot,
            output,
            next_envelope,
        )
}

/// Whether `mixed` may be the frame that the given voices make before the
/// limiter: one sum per channel, attenuated where any voice plays.
pub open spec fn mixed_frame<T: Default, K: EffectMath<T>>(
    pcm: Seq<T>,
    positions: Seq<u64>,
    channels: int,
    sums: Seq<T>,
    mixed: Seq<T>,
) -> bool {
    let voices = active_voices(positions);
    &&& sums.len() == channels
    &&& forall|c: int|
        0 <= c < channels ==> summed::<T, K>(pcm, positions, channels, c, #[trigger] sums[c])
    &&& mixed.len() == channels
    &&& voices == 0 ==> mixed == sums
    &&& voices != 0 ==> forall|c: int|
        0 <= c < channels ==> call_ensures(
            K::share,
            (sums[c], voices as usize),
            #[trigger] mixed[c],
        )
}

/// Whether `output` may be the frame played with the voices at `positions`.
pub open spec fn frame_played<T: Default, K: EffectMath<T>>(
    pcm: Seq<T>,
    positions: Seq<u64>,
    channels: int,
    envelope: T,
    output: Seq<T>,
    next_envelope: T,
) -> bool {
    exists|sums: Seq<T>, mixed: Seq<T>| #[trigger]
        mixed_frame::<T, K>(pcm, positions, channels, sums, mixed) && limited::<T, K>(
            mixed,
            envelope,
            output,
            next_envelope,
        )
}

/// The part of an interleaved buffer that is its frame `index`.
pub open spec fn frame_of<T>(buffer: Seq<T>, channels: int, index: int) -> Seq<T> {
    buffer.subrange(index * channels, (index + 1) * channels)
}

/// Whether `buffer` may be what `count` frames from the voices at `positions`
/// give, where `envelopes` are the limiter's envelope before each of them and
/// after the last. Samples behind the last whole frame are silent.
pub open spec fn played<T: Default, K: EffectMath<T>>(
    pcm: Seq<T>,
    positions: Seq<u64>,
    channels: int,
    frames: u64,
    buffer: Seq<T>,
    count: int,
    envelopes: Seq<T>,
) -> bool {
    &&& envelopes.len() == count + 1
    &&& forall|f: int|
        0 <= f < count ==> frame_played::<T, K>(
            pcm,
            voices_after(positions, f as nat, frames),
            channels,
            #[trigger] envelopes[f],
            frame_of(buffer, channels, f),
            envelopes[f + 1],
        )
    &&& forall|i: int|
        count * channels <= i < buffer.len() ==> call_ensures(
            T::default,
            (),
            #[trigger] buffer[i],
        )
}

/// Buffers that agree on their first `count` frames have those frames.
proof fn lemma_frame_kept<T>(
    before: Seq<T>,
    after: Seq<T>,
    channels: int,
    index: int,
    count: int,
)
    requires
        0 <= index < count,
        channels > 0,
        count * channels <= before.len() == after.len(),
        forall|i: int| 0 <= i < count * channels ==> before[i] == after[i],
    ensures
        frame_of(before, channels, index) == frame_of(after, channels, index),
{
    assert(0 <= index * channels && (index + 1) * channels <= count * channels)
        by (nonlinear_arith)
        requires
            0 <= index < count,
            channels > 0,
    ;
    assert((index + 1) * channels == index * channels + channels) by (nonlinear_arith);
    assert(frame_of(before, channels, index) =~= frame_of(after, channels, index));
}

/// A polyphonic, retriggerable PCM sound effect.
///
/// The stream is deliberately never at its end: it remains in the mixer and
/// produces silence between triggers. When every voice is busy, the voice
/// nearest to its end is restarted, which favours the newest impact.
pub struct SoundFx<T, K> {
    pcm: Vec<T>,
    channels: u16,
    sample_rate: u32,
    frames: u64,
    /// Current PCM frame of each voice, or [`INACTIVE`].
    voices: Vec<u64>,
    /// Linked-channel peak follower used by the slow sustain limiter.
    envelope: T,
    /// The frame being mixed, kept to avoid allocation while playing.
    frame: Vec<T>,
    math: PhantomData<K>,
}

impl<T, K> SoundFx<T, K> {
    pub closed spec fn pcm(&self) -> Seq<T> {
        self.pcm@
    }

    pub closed spec fn channel_count(&self) -> u16 {
        self.channels
    }

    pub closed spec fn rate(&self) -> u32 {
        self.sample_rate
    }

    /// Length of the effect in frames.
    pub closed spec fn frames(&self) -> u64 {
        self.frames
    }

    /// Current frame of each voice, or [`INACTIVE`].
    pub closed spec fn positions(&self) -> Seq<u64> {
        self.voices@
    }

    pub closed spec fn envelope(&self) -> T {
        self.envelope
    }

    /// The effect has whole frames and at least one voice, and every voice is
    /// idle or inside the effect.
    pub closed spec fn wf(&self) -> bool {
        &&& self.channels > 0
        &&& self.sample_rate > 0
        &&& self.frames > 0
        &&& self.frames * self.channels == self.pcm@.len()
        &&& self.voices@.len() > 0
        &&& forall|i: int|
            0 <= i < self.voices@.len() ==> (#[trigger] self.voices@[i] == INACTIVE
                || self.voices@[i] < self.frames)
    }

    /// What every effect keeps.
    pub proof fn law_voices_stay_inside_the_effect(&self)
        requires
            self.wf(),
        ensures
            self.channel_count() > 0,
            self.rate() > 0,
            self.frames() > 0,
            self.frames() * self.channel_count() == self.pcm().len(),
            self.positions().len() > 0,
            forall|i: int|
                0 <= i < self.positions().len() ==> (#[trigger] self.positions()[i] == INACTIVE
                    || self.positions()[i] < self.frames()),
    {
    }

    /// The PCM data and its format are as in `other`.
    pub open spec fn same_effect(&self, other: &Self) -> bool {
        &&& self.pcm() == other.pcm()
        &&& self.channel_count() == other.channel_count()
        &&& self.rate() == other.rate()
        &&& self.frames() == other.frames()
        &&& self.positions().len() == other.positions().len()
    }
}

/// Peak of a frame.
fn peak_of<T: Copy + Default, K: EffectMath<T>>(frame: &Vec<T>) -> (peak: T)
    ensures
        peaked::<T, K>(frame@, peak),
{
    let mut peak = T::default();
    let mut i: usize = 0;
    assert(frame@.take(0) =~= Seq::<T>::empty());
    while i < frame.len()
        invariant
            i <= frame@.len(),
            peaked::<T, K>(frame@.take(i as int), peak),
        decreases frame@.len() - i,
    {
        let ghost earlier = peak;
        peak = K::louder(peak, frame[i]);
        proof {
            let next = frame@.take(i + 1);
            assert(next.drop_last() =~= frame@.take(i as int));
            assert(next.last() == frame@[i as int]);
            assert(call_ensures(K::louder, (earlier, next.last()), peak));
        }
        i = i + 1;
    }
    assert(frame@.take(i as int) =~= frame@);
    peak
}

/// Limit one frame in place. Returns the next envelope.
fn apply_limiter<T: Copy + Default, K: EffectMath<T>>(frame: &mut Vec<T>, envelope: T) -> (next: T)
    ensures
        final(frame)@.len() == old(frame)@.len(),
        limited::<T, K>(old(frame)@, envelope, final(frame)@, next),
{
    let peak = peak_of::<T, K>(frame);
    let count = frame.len();
    let mut i: usize = 0;
    while i < count
        invariant
            i <= count == frame@.len() == old(frame)@.len(),
            forall|j: int|
                0 <= j < i ==> call_ensures(
                    K::soft_clip,
                    (old(frame)@[j], peak),
                    #[trigger] frame@[j],
                ),
            forall|j: int| i <= j < count ==> frame@[j] == old(frame)@[j],
        decreases count - i,
    {
        frame[i] = K::soft_clip(frame[i], peak);
        i = i + 1;
    }
    let ghost clipped = frame@;
    let clipped_peak = peak_of::<T, K>(frame);
    let next = K::follow(clipped_peak, envelope);
    let hot = K::is_hot(next);
    if hot {
        let mut i: usize = 0;
        while i < count
            invariant
                i <= count == frame@.len() == clipped.len(),
                forall|j: int|
                    0 <= j < i ==> call_ensures(
                        K::sustain,
                        (clipped[j], next),
                        #[trigger] frame@[j],
                    ),
                forall|j: int| i <= j < count ==> frame@[j] == clipped[j],
            decreases count - i,
        {
            frame[i] = K::sustain(frame[i], next);
            i = i + 1;
        }
    }
    assert(limited_through::<T, K>(
        old(frame)@,
        envelope,
        peak,
        clipped,
        clipped_peak,
        hot,
        frame@,
        next,
    ));
    next
}

/// Mix one frame of all voices, before the limiter.
fn mix_frame<T: Copy + Default, K: EffectMath<T>>(
    pcm: &Vec<T>,
    positions: &Vec<u64>,
    channels: usize,
    frames: u64,
    frame: &mut Vec<T>,
)
    requires
        channels > 0,
        frames * channels == pcm@.len(),
        forall|i: int|
            0 <= i < positions@.len() ==> (#[trigger] positions@[i] == INACTIVE || positions@[i]
                < frames),
    ensures
        exists|sums: Seq<T>| #[trigger]
            mixed_frame::<T, K>(pcm@, positions@, channels as int, sums, final(frame)@),
{
    frame.clear();
    let total = pcm.len();
    assert(positions@.take(0) =~= Seq::<u64>::empty());
    while frame.len() < channels
        invariant
            frame@.len() <= channels,
            positions@.take(0) =~= Seq::<u64>::empty(),
            forall|c: int|
                0 <= c < frame@.len() ==> summed::<T, K>(
                    pcm@,
                    positions@.take(0),
                    channels as int,
                    c,
                    #[trigger] frame@[c],
                ),
        decreases channels - frame@.len(),
    {
        frame.push(T::default());
    }
    let mut voices: usize = 0;
    let mut v: usize = 0;
    while v < positions.len()
        invariant
            v <= positions@.len(),
            voices <= v,
            voices == active_voices(positions@.take(v as int)),
            channels > 0,
            frames * channels == pcm@.len(),
            total == pcm@.len(),
            frame@.len() == channels,
            forall|i: int|
                0 <= i < positions@.len() ==> (#[trigger] positions@[i] == INACTIVE
                    || positions@[i] < frames),
            forall|c: int|
                0 <= c < channels ==> summed::<T, K>(
                    pcm@,
                    positions@.take(v as int),
                    channels as int,
                    c,
                    #[trigger] frame@[c],
                ),
        decreases positions@.len() - v,
    {
        let position = positions[v];
        let ghost next = positions@.take(v + 1);
        proof {
            assert(next.drop_last() =~= positions@.take(v as int));
            assert(next.last() == position);
        }
        let ghost before = frame@;
        if position != INACTIVE {
            assert(0 <= position * channels && (position + 1) * channels <= pcm@.len())
                by (nonlinear_arith)
                requires
                    position < frames,
                    frames * channels == pcm@.len(),
                    channels > 0,
            ;
            assert(position <= position * channels) by (nonlinear_arith)
                requires
                    channels > 0,
            ;
            assert((position + 1) * channels == position * channels + channels)
                by (nonlinear_arith);
            let start: usize = (position as usize) * channels;
            let mut c: usize = 0;
            while c < channels
                invariant
                    c <= channels == frame@.len() == before.len(),
                    start == position * channels,
                    start + channels <= pcm@.len(),
                    total == pcm@.len(),
                    forall|j: int|
                        0 <= j < c ==> call_ensures(
                            K::add_samples,
                            (before[j], pcm@[position * channels + j]),
                            #[trigger] frame@[j],
                        ),
                    forall|j: int| c <= j < channels ==> frame@[j] == before[j],
                decreases channels - c,
            {
                frame[c] = K::add_samples(frame[c], pcm[start + c]);
                c = c + 1;
            }
            voices = voices + 1;
        }
        proof {
            assert forall|c: int| 0 <= c < channels implies summed::<T, K>(
                pcm@,
                next,
                channels as int,
                c,
                #[trigger] frame@[c],
            ) by {
                assert(summed::<T, K>(
                    pcm@,
                    next.drop_last(),
                    channels as int,
                    c,
                    before[c],
                ));
                if position != INACTIVE {
                    assert(call_ensures(
                        K::add_samples,
                        (before[c], pcm@[next.last() * channels + c]),
                        frame@[c],
                    ));
                }
            }
        }
        v = v + 1;
    }
    assert(positions@.take(v as int) =~= positions@);
    let ghost sums = frame@;
    if voices != 0 {
        let mut c: usize = 0;
        while c < channels
            invariant
                c <= channels == frame@.len() == sums.len(),
                forall|j: int|
                    0 <= j < c ==> call_ensures(K::share, (sums[j], voices), #[trigger] frame@[j]),
                forall|j: int| c <= j < channels ==> frame@[j] == sums[j],
            decreases channels - c,
        {
            frame[c] = K::share(frame[c], voices);
            c = c + 1;
        }
    }
    assert(mixed_frame::<T, K>(pcm@, positions@, channels as int, sums, frame@));
}

impl<T: Copy + Default, K: EffectMath<T>> SoundFx<T, K> {
    /// Create a retriggerable sound effect from interleaved PCM samples.
    ///
    /// `voice_count` bounds simultaneous playback and all work in `read()`.
    /// A zero voice count, zero channel count, zero sample rate, or partial
    /// final frame is rejected.
    pub fn new(pcm: Vec<T>, channels: u16, sample_rate: u32, voice_count: usize) -> (effect: Result<
        Self,
        AudioError,
    >)
        ensures
            match effect_error(pcm@.len(), channels, sample_rate, voice_count) {
                Some(error) => outcome(effect) == Err::<Self, ErrorView>(error),
                None => {
                    &&& effect is Ok
                    &&& effect->Ok_0.wf()
                    &&& effect->Ok_0.pcm() == pcm@
                    &&& effect->Ok_0.channel_count() == channels
                    &&& effect->Ok_0.rate() == sample_rate
                    &&& effect->Ok_0.frames() == pcm@.len() / (channels as nat)
                    &&& effect->Ok_0.positions() == Seq::new(
                        voice_count as nat,
                        |i: int| INACTIVE,
                    )
                    &&& call_ensures(T::default, (), effect->Ok_0.envelope())
                },
            },
    {
        if channels == 0 {
            return Err(stream_message("SoundFx requires at least one channel"));
        }
        if sample_rate == 0 {
            return Err(stream_message("SoundFx requires a non-zero sample rate"));
        }
        if voice_count == 0 {
            return Err(stream_message("SoundFx requires at least one voice"));
        }
        if pcm.len() == 0 || pcm.len() % (channels as usize) != 0 {
            return Err(stream_message("SoundFx PCM must contain complete, non-empty frames"));
        }
        let frames: u64 = (pcm.len() / (channels as usize)) as u64;
        proof {
            vstd::arithmetic::div_mod::lemma_fundamental_div_mod(
                pcm@.len() as int,
                channels as int,
            );
            assert(frames * channels == pcm@.len()) by (nonlinear_arith)
                requires
                    pcm@.len() == channels * frames,
            ;
            assert(frames > 0) by (nonlinear_arith)
                requires
                    frames * channels == pcm@.len(),
                    pcm@.len() > 0,
                    frames >= 0,
            ;
        }
        let mut voices: Vec<u64> = Vec::with_capacity(voice_count);
        while voices.len() < voice_count
            invariant
                voices@.len() <= voice_count,
                forall|i: int| 0 <= i < voices@.len() ==> voices@[i] == INACTIVE,
            decreases voice_count - voices@.len(),
        {
            voices.push(INACTIVE);
        }
        assert(voices@ =~= Seq::new(voice_count as nat, |i: int| INACTIVE));
        Ok(
            SoundFx {
                pcm,
                channels,
                sample_rate,
                frames,
                voices,
                envelope: T::default(),
                frame: Vec::with_capacity(channels as usize),
                math: PhantomData,
            },
        )
    }

    /// Start a new instance of the effect.
    ///
    /// Returns `true` when an idle voice was used. If the pool is full, the
    /// most progressed voice is restarted and `false` is returned.
    pub fn trigger(&mut self) -> (idle: bool)
        requires
            old(self).wf(),
        ensures
            final(self).wf(),
            final(self).same_effect(old(self)),
            final(self).envelope() == old(self).envelope(),
            idle == old(self).positions().contains(INACTIVE),
            exists|voice: int| #[trigger]
                triggered_voice(old(self).positions(), voice) && final(self).positions() == old(self).positions().update(voice, 0),
    {
        let mut i: usize = 0;
        while i < self.voices.len()
            invariant
                i <= self.voices@.len(),
                *self == *old(self),
                self.wf(),
                forall|j: int| 0 <= j < i ==> self.voices@[j] != INACTIVE,
            decreases self.voices@.len() - i,
        {
            if self.voices[i] == INACTIVE {
                assert(triggered_voice(old(self).positions(), i as int));
                self.voices[i] = 0;
                return true;
            }
            i = i + 1;
        }
        // All voices are active. Reuse the tail-most one so short effects do
        // not suppress newer impacts merely because the pool is full.
        let mut replacement: usize = 0;
        let mut farthest = self.voices[0];
        let mut k: usize = 1;
        while k < self.voices.len()
            invariant
                1 <= k <= self.voices@.len(),
                *self == *old(self),
                self.wf(),
                replacement < k,
                farthest == self.voices@[replacement as int],
                forall|j: int| 0 <= j < k ==> self.voices@[j] <= farthest,
                forall|j: int| 0 <= j < replacement ==> self.voices@[j] < farthest,
                forall|j: int| 0 <= j < self.voices@.len() ==> self.voices@[j] != INACTIVE,
            decreases self.voices@.len() - k,
        {
            let position = self.voices[k];
            if position > farthest {
                replacement = k;
                farthest = position;
            }
            k = k + 1;
        }
        assert(triggered_voice(old(self).positions(), replacement as int));
        self.voices[replacement] = 0;
        false
    }

    /// Mix active voices into `buffer`.
    ///
    /// Silence between triggers goes through the limiter too, so that it
    /// releases in real time.
    #[verifier::spinoff_prover]
    #[verifier::rlimit(40)]
    pub fn read(&mut self, buffer: &mut [T], _frame_count: u64) -> (count: usize)
        requires
            old(self).wf(),
        ensures
            final(self).wf(),
            final(self).same_effect(old(self)),
            count == old(buffer)@.len(),
            final(buffer)@.len() == old(buffer)@.len(),
            final(self).positions() == voices_after(
                old(self).positions(),
                count as nat / old(self).channel_count() as nat,
                old(self).frames(),
            ),
            exists|envelopes: Seq<T>| #[trigger]
                played::<T, K>(
                    old(self).pcm(),
                    old(self).positions(),
                    old(self).channel_count() as int,
                    old(self).frames(),
                    final(buffer)@,
                    count as int / old(self).channel_count() as int,
                    envelopes,
                ) && envelopes.first() == old(self).envelope() && envelopes.last() == final(self).envelope(),
    {
        let total = buffer.len();
        let channels = self.channels as usize;
        let frames = total / channels;
        let ghost start = self.voices@;
        let ghost mut envelopes: Seq<T> = seq![self.envelope];
        let mut f: usize = 0;
        let mut offset: usize = 0;
        assert(frames * channels <= total) by (nonlinear_arith)
            requires
                frames == total / channels,
                channels > 0,
        ;
        assert(start =~= voices_after(start, 0, self.frames));
        while f < frames
            invariant
                f <= frames,
                total == buffer@.len() == old(buffer)@.len(),
                channels == self.channels,
                offset == f * channels,
                frames * channels <= total,
                self.wf(),
                self.same_effect(old(self)),
                self.voices@ == voices_after(start, f as nat, self.frames),
                start == old(self).positions(),
                start.len() == self.voices@.len(),
                forall|i: int|
                    0 <= i < start.len() ==> (#[trigger] start[i] == INACTIVE || start[i]
                        < self.frames),
                envelopes.len() == f + 1,
                envelopes.first() == old(self).envelope(),
                envelopes.last() == self.envelope,
                forall|k: int|
                    0 <= k < f ==> frame_played::<T, K>(
                        self.pcm(),
                        voices_after(start, k as nat, self.frames),
                        channels as int,
                        #[trigger] envelopes[k],
                        frame_of(buffer@, channels as int, k),
                        envelopes[k + 1],
                    ),
            decreases frames - f,
        {
            let ghost before = buffer@;
            let ghost positions = self.voices@;
            let ghost envelope = self.envelope;
            mix_frame::<T, K>(&self.pcm, &self.voices, channels, self.frames, &mut self.frame);
            let ghost mixed = self.frame@;
            let next = apply_limiter::<T, K>(&mut self.frame, self.envelope);
            self.envelope = next;
            assert((f + 1) * channels == f * channels + channels && (f + 1) * channels <= frames
                * channels) by (nonlinear_arith)
                requires
                    f < frames,
            ;
            let mut c: usize = 0;
            while c < channels
                invariant
                    c <= channels == self.frame@.len(),
                    offset + channels <= total == buffer@.len() == before.len(),
                    forall|i: int|
                        0 <= i < offset || offset + c <= i < total ==> buffer@[i] == before[i],
                    forall|j: int| 0 <= j < c ==> buffer@[offset + j] == #[trigger] self.frame@[j],
                decreases channels - c,
            {
                buffer[offset + c] = self.frame[c];
                c = c + 1;
            }
            self.advance_voices();
            proof {
                let output = frame_of(buffer@, channels as int, f as int);
                assert(output =~= self.frame@);
                assert(frame_played::<T, K>(
                    self.pcm(),
                    positions,
                    channels as int,
                    envelope,
                    output,
                    next,
                ));
                assert(self.voices@ =~= voices_after(start, (f + 1) as nat, self.frames));
                let earlier = envelopes;
                envelopes = envelopes.push(next);
                assert forall|k: int| 0 <= k < f + 1 implies frame_played::<T, K>(
                    self.pcm(),
                    voices_after(start, k as nat, self.frames),
                    channels as int,
                    #[trigger] envelopes[k],
                    frame_of(buffer@, channels as int, k),
                    envelopes[k + 1],
                ) by {
                    if k < f {
                        assert(earlier[k] == envelopes[k]);
                        lemma_frame_kept(before, buffer@, channels as int, k, f as int);
                    }
                }
            }
            f = f + 1;
            offset = offset + channels;
        }
        let ghost played_part = buffer@;
        let mut i = offset;
        while i < total
            invariant
                offset <= i <= total == buffer@.len() == played_part.len(),
                forall|j: int| 0 <= j < offset ==> buffer@[j] == played_part[j],
                forall|j: int|
                    offset <= j < i ==> call_ensures(T::default, (), #[trigger] buffer@[j]),
            decreases total - i,
        {
            buffer[i] = T::default();
            i = i + 1;
        }
        proof {
            assert forall|k: int| 0 <= k < frames implies frame_played::<T, K>(
                self.pcm(),
                voices_after(start, k as nat, self.frames),
                channels as int,
                #[trigger] envelopes[k],
                frame_of(buffer@, channels as int, k),
                envelopes[k + 1],
            ) by {
                lemma_frame_kept(played_part, buffer@, channels as int, k, frames as int);
            }
            assert(played::<T, K>(
                self.pcm(),
                start,
                channels as int,
                self.frames,
                buffer@,
                frames as int,
                envelopes,
            ));
        }
        total
    }

    /// Move every voice on by one frame; one that reaches the end goes idle.
    fn advance_voices(&mut self)
        requires
            old(self).wf(),
        ensures
            final(self).wf(),
            final(self).same_effect(old(self)),
            final(self).positions() == voices_after(old(self).positions(), 1, old(self).frames()),
            final(self).envelope() == old(self).envelope(),
            final(self).frame == old(self).frame,
    {
        let mut v: usize = 0;
        while v < self.voices.len()
            invariant
                v <= self.voices@.len() == old(self).voices@.len(),
                self.wf(),
                self.same_effect(old(self)),
                self.envelope == old(self).envelope,
                self.frame == old(self).frame,
                forall|i: int|
                    0 <= i < v ==> #[trigger] self.voices@[i] == voice_after(
                        old(self).voices@[i],
                        1,
                        self.frames,
                    ),
                forall|i: int|
                    v <= i < self.voices@.len() ==> #[trigger] self.voices@[i] == old(self).voices@[i],
            decreases self.voices@.len() - v,
        {
            let position = self.voices[v];
            if position != INACTIVE {
                let next: u64 = if position + 1 == self.frames {
                    INACTIVE
                } else {
                    position + 1
                };
                self.voices[v] = next;
            }
            v = v + 1;
        }
        assert(self.voices@ =~= voices_after(old(self).voices@, 1, self.frames));
    }

    /// Move every active voice to the same PCM frame. A frame behind the end
    /// stops them.
    pub fn seek(&mut self, frame: u64) -> (result: Result<(), AudioError>)
        requires
            old(self).wf(),
        ensures
            final(self).wf(),
            final(self).same_effect(old(self)),
            final(self).envelope() == old(self).envelope(),
            result is Ok,
            forall|i: int|
                0 <= i < old(self).positions().len() ==> #[trigger] final(self).positions()[i] == (
                if old(self).positions()[i] == INACTIVE || frame >= old(self).frames() {
                    INACTIVE
                } else {
                    frame
                }),
    {
        let position: u64 = if frame < self.frames {
            frame
        } else {
            INACTIVE
        };
        let mut v: usize = 0;
        while v < self.voices.len()
            invariant
                v <= self.voices@.len() == old(self).voices@.len(),
                self.wf(),
                self.same_effect(old(self)),
                self.envelope == old(self).envelope,
                position == (if frame < self.frames {
                    frame
                } else {
                    INACTIVE
                }),
                forall|i: int|
                    0 <= i < v ==> #[trigger] self.voices@[i] == (if old(self).voices@[i]
                        == INACTIVE {
                        INACTIVE
                    } else {
                        position
                    }),
                forall|i: int|
                    v <= i < self.voices@.len() ==> #[trigger] self.voices@[i] == old(self).voices@[i],
            decreases self.voices@.len() - v,
        {
            if self.voices[v] != INACTIVE {
                self.voices[v] = position;
            }
            v = v + 1;
        }
        Ok(())
    }

    /// Sound effects remain available for later `trigger()` calls.
    pub fn is_eof(&self) -> (eof: bool)
        ensures
            !eof,
    {
        false
    }

    pub fn channels(&self) -> (channels: u16)
        ensures
            channels == self.channel_count(),
    {
        self.channels
    }

    pub fn sample_rate(&self) -> (rate: u32)
        ensures
            rate == self.rate(),
    {
        self.sample_rate
    }
}

/// No more voices play at once than there are.
pub proof fn law_polyphony_is_bounded(positions: Seq<u64>)
    ensures
        active_voices(positions) <= positions.len(),
    decreases positions.len(),
{
    if positions.len() > 0 {
        law_polyphony_is_bounded(positions.drop_last());
    }
}

/// Playing on in two goes is playing on in one.
pub proof fn law_playing_composes(positions: Seq<u64>, first: nat, second: nat, frames: u64)
    ensures
        voices_after(voices_after(positions, first, frames), second, frames) == voices_after(
            positions,
            first + second,
            frames,
        ),
{
    assert(voices_after(voices_after(positions, first, frames), second, frames) =~= voices_after(
        positions,
        first + second,
        frames,
    ));
}

/// Every voice finishes: after as many frames as the effect has, all voices
/// are idle, so the next trigger finds an idle one.
pub proof fn law_voices_finish(positions: Seq<u64>, steps: nat, frames: u64)
    requires
        positions.len() > 0,
        steps >= frames,
    ensures
        voices_after(positions, steps, frames) == Seq::new(positions.len(), |i: int| INACTIVE),
        voices_after(positions, steps, frames).contains(INACTIVE),
{
    let after = voices_after(positions, steps, frames);
    assert(after =~= Seq::new(positions.len(), |i: int| INACTIVE));
    assert(after[0] == INACTIVE);
}

/// A trigger always starts a voice, and there is exactly one that it starts.
pub proof fn law_one_voice_is_triggered(positions: Seq<u64>)
    requires
        positions.len() > 0,
    ensures
        exists|voice: int| triggered_voice(positions, voice),
        forall|a: int, b: int|
            triggered_voice(positions, a) && triggered_voice(positions, b) ==> a == b,
{
    if positions.contains(INACTIVE) {
        let some = choose|i: int| 0 <= i < positions.len() && positions[i] == INACTIVE;
        lemma_first_idle_exists(positions, some);
        let voice = choose|voice: int| first_idle(positions, voice);
        assert(triggered_voice(positions, voice));
    } else {
        lemma_most_progressed_exists(positions, positions.len() as int);
        assert(positions.take(positions.len() as int) =~= positions);
        let voice = choose|voice: int| most_progressed(positions, voice);
        assert(triggered_voice(positions, voice));
    }
    assert forall|a: int, b: int|
        triggered_voice(positions, a) && triggered_voice(positions, b) implies a == b by {
        lemma_triggered_first(positions, a, b);
        lemma_triggered_first(positions, b, a);
    }
}

/// Of two voices that a trigger may start, the second does not come first.
proof fn lemma_triggered_first(positions: Seq<u64>, a: int, b: int)
    requires
        triggered_voice(positions, a),
        triggered_voice(positions, b),
    ensures
        a >= b,
{
    if a < b {
        if positions.contains(INACTIVE) {
            assert(first_idle(positions, a) && first_idle(positions, b));
            assert(positions[a] == INACTIVE && positions[a] != INACTIVE);
        } else {
            assert(most_progressed(positions, a) && most_progressed(positions, b));
            assert(positions[b] <= positions[a]);
            assert(positions[a] < positions[b]);
        }
    }
}

proof fn lemma_first_idle_exists(positions: Seq<u64>, index: int)
    requires
        0 <= index < positions.len(),
        positions[index] == INACTIVE,
    ensures
        exists|voice: int| first_idle(positions, voice),
    decreases index,
{
    if exists|i: int| 0 <= i < index && positions[i] == INACTIVE {
        let i = choose|i: int| 0 <= i < index && positions[i] == INACTIVE;
        lemma_first_idle_exists(positions, i);
    } else {
        assert(first_idle(positions, index));
    }
}

proof fn lemma_most_progressed_exists(positions: Seq<u64>, count: int)
    requires
        0 < count <= positions.len(),
    ensures
        exists|voice: int| most_progressed(positions.take(count), voice),
    decreases count,
{
    let here = positions.take(count);
    if count == 1 {
        assert(most_progressed(here, 0));
    } else {
        lemma_most_progressed_exists(positions, count - 1);
        let before = positions.take(count - 1);
        let voice = choose|voice: int| most_progressed(before, voice);
        assert forall|i: int| 0 <= i < count - 1 implies here[i] == before[i] by {}
        if here[count - 1] > here[voice] {
            assert(most_progressed(here, count - 1));
        } else {
            assert(most_progressed(here, voice));
        }
    }
}

} // verus!
