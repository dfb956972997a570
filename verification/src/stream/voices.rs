//! What a sound effect makes of its voices, in terms of the voices that play.

use vstd::prelude::*;

use super::soundfx::{
    active_voices, frame_played, limited, limited_through, mixed_frame, peaked, played, summed,
    triggered_voice, voices_after, EffectMath, SoundFx, INACTIVE,
};
use crate::error::AudioError;

verus! {

/// The positions of the voices that play, in their order.
pub open spec fn playing(positions: Seq<u64>) -> Seq<u64> {
    positions.filter(|position: u64| position != 0xffff_ffff_ffff_ffff)
}

proof fn lemma_playing_step(positions: Seq<u64>)
    requires
        positions.len() > 0,
    ensures
        playing(positions) == (if positions.last() == INACTIVE {
            playing(positions.drop_last())
        } else {
            playing(positions.drop_last()).push(positions.last())
        }),
{
    reveal(Seq::filter);
}

proof fn lemma_playing_count(positions: Seq<u64>)
    ensures
        active_voices(positions) == playing(positions).len(),
        active_voices(playing(positions)) == playing(positions).len(),
    decreases positions.len(),
{
    reveal(Seq::filter);
    if positions.len() > 0 {
        lemma_playing_step(positions);
        lemma_playing_count(positions.drop_last());
        if positions.last() != INACTIVE {
            let kept = playing(positions);
            assert(kept.drop_last() =~= playing(positions.drop_last()));
        }
    }
}

proof fn lemma_playing_sums<T: Default, K: EffectMath<T>>(
    pcm: Seq<T>,
    positions: Seq<u64>,
    channels: int,
    channel: int,
    sum: T,
)
    ensures
        summed::<T, K>(pcm, positions, channels, channel, sum) <==> summed::<T, K>(
            pcm,
            playing(positions),
            channels,
            channel,
            sum,
        ),
    decreases positions.len(),
{
    reveal(Seq::filter);
    if positions.len() > 0 {
        let rest = positions.drop_last();
        lemma_playing_step(positions);
        if positions.last() == INACTIVE {
            lemma_playing_sums::<T, K>(pcm, rest, channels, channel, sum);
        } else {
            let kept = playing(positions);
            assert(kept.drop_last() =~= playing(rest));
            assert forall|partial: T|
                summed::<T, K>(pcm, rest, channels, channel, partial) <==> #[trigger] summed::<
                    T,
                    K,
                >(pcm, playing(rest), channels, channel, partial) by {
                lemma_playing_sums::<T, K>(pcm, rest, channels, channel, partial);
            }
            let sample = pcm[positions.last() * channels + channel];
            if summed::<T, K>(pcm, positions, channels, channel, sum) {
                let partial = choose|partial: T|
                    summed::<T, K>(pcm, rest, channels, channel, partial)
                        && #[trigger] call_ensures(K::add_samples, (partial, sample), sum);
                assert(summed::<T, K>(pcm, playing(rest), channels, channel, partial));
                assert(call_ensures(K::add_samples, (partial, sample), sum));
            }
            if summed::<T, K>(pcm, kept, channels, channel, sum) {
                let partial = choose|partial: T|
                    summed::<T, K>(pcm, kept.drop_last(), channels, channel, partial)
                        && #[trigger] call_ensures(K::add_samples, (partial, sample), sum);
                assert(summed::<T, K>(pcm, playing(rest), channels, channel, partial));
                assert(call_ensures(K::add_samples, (partial, sample), sum));
            }
        }
    }
}

/// Idle voices do not matter: the frame that is played with the voices at given
/// positions is the one that is played with only those that play, in their order.
/// So a single voice in a pool of any size gives what it gives in a pool of one.
pub proof fn law_idle_voices_do_not_matter<T: Default, K: EffectMath<T>>(
    pcm: Seq<T>,
    positions: Seq<u64>,
    channels: int,
    envelope: T,
    output: Seq<T>,
    next_envelope: T,
)
    ensures
        frame_played::<T, K>(pcm, positions, channels, envelope, output, next_envelope)
            <==> frame_played::<T, K>(
            pcm,
            playing(positions),
            channels,
            envelope,
            output,
            next_envelope,
        ),
{
    let kept = playing(positions);
    lemma_playing_count(positions);
    assert forall|c: int, sum: T|
        summed::<T, K>(pcm, positions, channels, c, sum) <==> #[trigger] summed::<T, K>(
            pcm,
            kept,
            channels,
            c,
            sum,
        ) by {
        lemma_playing_sums::<T, K>(pcm, positions, channels, c, sum);
    }
    assert forall|sums: Seq<T>, mixed: Seq<T>|
        mixed_frame::<T, K>(pcm, positions, channels, sums, mixed) <==> #[trigger] mixed_frame::<
            T,
            K,
        >(pcm, kept, channels, sums, mixed) by {
        if mixed_frame::<T, K>(pcm, positions, channels, sums, mixed) {
            assert forall|c: int| 0 <= c < channels implies summed::<T, K>(
                pcm,
                kept,
                channels,
                c,
                #[trigger] sums[c],
            ) by {
                assert(summed::<T, K>(pcm, positions, channels, c, sums[c]));
            }
        }
        if mixed_frame::<T, K>(pcm, kept, channels, sums, mixed) {
            assert forall|c: int| 0 <= c < channels implies summed::<T, K>(
                pcm,
                positions,
                channels,
                c,
                #[trigger] sums[c],
            ) by {
                assert(summed::<T, K>(pcm, kept, channels, c, sums[c]));
            }
        }
    }
    if frame_played::<T, K>(pcm, positions, channels, envelope, output, next_envelope) {
        let (sums, mixed) = choose|sums: Seq<T>, mixed: Seq<T>| #[trigger]
            mixed_frame::<T, K>(pcm, positions, channels, sums, mixed) && limited::<T, K>(
                mixed,
                envelope,
                output,
                next_envelope,
            );
        assert(mixed_frame::<T, K>(pcm, kept, channels, sums, mixed));
    }
    if frame_played::<T, K>(pcm, kept, channels, envelope, output, next_envelope) {
        let (sums, mixed) = choose|sums: Seq<T>, mixed: Seq<T>| #[trigger]
            mixed_frame::<T, K>(pcm, kept, channels, sums, mixed) && limited::<T, K>(
                mixed,
                envelope,
                output,
                next_envelope,
            );
        assert(mixed_frame::<T, K>(pcm, positions, channels, sums, mixed));
    }
}

/// Without a voice that plays, a frame goes into the limiter as silence.
pub proof fn law_no_voice_is_silence<T: Default, K: EffectMath<T>>(
    pcm: Seq<T>,
    positions: Seq<u64>,
    channels: int,
    sums: Seq<T>,
    mixed: Seq<T>,
)
    requires
        mixed_frame::<T, K>(pcm, positions, channels, sums, mixed),
        playing(positions).len() == 0,
    ensures
        mixed.len() == channels,
        forall|c: int| 0 <= c < channels ==> call_ensures(T::default, (), #[trigger] mixed[c]),
{
    lemma_playing_count(positions);
    assert forall|c: int| 0 <= c < channels implies call_ensures(
        T::default,
        (),
        #[trigger] mixed[c],
    ) by {
        assert(summed::<T, K>(pcm, positions, channels, c, sums[c]));
        lemma_playing_sums::<T, K>(pcm, positions, channels, c, sums[c]);
    }
}

/// Another voice adds the samples of its frame, each to the channel that it is of,
/// to what the voices before it add up to, and the sum is attenuated for one voice
/// more.
pub proof fn law_another_voice_adds_its_frame<T: Default, K: EffectMath<T>>(
    pcm: Seq<T>,
    positions: Seq<u64>,
    position: u64,
    channels: int,
    sums: Seq<T>,
    mixed: Seq<T>,
)
    requires
        mixed_frame::<T, K>(pcm, positions.push(position), channels, sums, mixed),
        position != 0xffff_ffff_ffff_ffff,
        positions.len() < usize::MAX,
    ensures
        sums.len() == channels && mixed.len() == channels,
        forall|c: int|
            0 <= c < channels ==> adds_sample::<T, K>(
                pcm,
                positions,
                channels,
                c,
                pcm[position * channels + c],
                #[trigger] sums[c],
            ),
        forall|c: int|
            0 <= c < channels ==> call_ensures(
                K::share,
                (sums[c], (playing(positions).len() + 1) as usize),
                #[trigger] mixed[c],
            ),
{
    let all = positions.push(position);
    lemma_playing_count(all);
    lemma_playing_step(all);
    assert(all.drop_last() =~= positions);
    assert forall|c: int| 0 <= c < channels implies adds_sample::<T, K>(
        pcm,
        positions,
        channels,
        c,
        pcm[position * channels + c],
        #[trigger] sums[c],
    ) by {
        assert(summed::<T, K>(pcm, all, channels, c, sums[c]));
        let sample = pcm[all.last() * channels + c];
        let partial = choose|partial: T|
            summed::<T, K>(pcm, all.drop_last(), channels, c, partial) && #[trigger] call_ensures(
                K::add_samples,
                (partial, sample),
                sums[c],
            );
        assert(summed::<T, K>(pcm, positions, channels, c, partial));
        assert(call_ensures(K::add_samples, (partial, sample), sums[c]));
    }
}

/// Whether `sum` may be `sample` added to what the voices at `positions` add up to
/// in a channel.
pub open spec fn adds_sample<T: Default, K: EffectMath<T>>(
    pcm: Seq<T>,
    positions: Seq<u64>,
    channels: int,
    channel: int,
    sample: T,
    sum: T,
) -> bool {
    exists|partial: T|
        summed::<T, K>(pcm, positions, channels, channel, partial) && #[trigger] call_ensures(
            K::add_samples,
            (partial, sample),
            sum,
        )
}

/// Nothing added up is silence.
pub proof fn law_no_voices_add_up_to_silence<T: Default, K: EffectMath<T>>(
    pcm: Seq<T>,
    channels: int,
    channel: int,
    sum: T,
)
    ensures
        summed::<T, K>(pcm, Seq::<u64>::empty(), channels, channel, sum) <==> call_ensures(
            T::default,
            (),
            sum,
        ),
{
}

/// Channels are added up apart: where two effects have the same samples in a
/// channel, their voices add up to the same in that channel.
pub proof fn law_channels_add_up_apart<T: Default, K: EffectMath<T>>(
    first: Seq<T>,
    second: Seq<T>,
    positions: Seq<u64>,
    channels: int,
    channel: int,
    sum: T,
)
    requires
        forall|p: int|
            0 <= p ==> #[trigger] first[p * channels + channel] == second[p * channels + channel],
    ensures
        summed::<T, K>(first, positions, channels, channel, sum) <==> summed::<T, K>(
            second,
            positions,
            channels,
            channel,
            sum,
        ),
    decreases positions.len(),
{
    if positions.len() > 0 {
        let rest = positions.drop_last();
        if positions.last() == INACTIVE {
            law_channels_add_up_apart::<T, K>(first, second, rest, channels, channel, sum);
        } else {
            let sample = first[positions.last() * channels + channel];
            assert(sample == second[positions.last() * channels + channel]);
            assert forall|partial: T|
                #[trigger] summed::<T, K>(first, rest, channels, channel, partial) == summed::<
                    T,
                    K,
                >(second, rest, channels, channel, partial) by {
                law_channels_add_up_apart::<T, K>(first, second, rest, channels, channel, partial);
            }
            if summed::<T, K>(first, positions, channels, channel, sum) {
                let partial = choose|partial: T|
                    summed::<T, K>(first, rest, channels, channel, partial)
                        && #[trigger] call_ensures(K::add_samples, (partial, sample), sum);
                assert(summed::<T, K>(second, rest, channels, channel, partial));
                assert(call_ensures(K::add_samples, (partial, sample), sum));
            }
            if summed::<T, K>(second, positions, channels, channel, sum) {
                let partial = choose|partial: T|
                    summed::<T, K>(second, rest, channels, channel, partial)
                        && #[trigger] call_ensures(K::add_samples, (partial, sample), sum);
                assert(summed::<T, K>(first, rest, channels, channel, partial));
                assert(call_ensures(K::add_samples, (partial, sample), sum));
            }
        }
    }
}

/// The peak of a frame follows every channel of it, from silence: one more sample
/// makes it the louder of the peak so far and that sample.
pub proof fn law_peak_follows_every_channel<T: Default, K: EffectMath<T>>(
    frame: Seq<T>,
    sample: T,
    peak: T,
)
    ensures
        peaked::<T, K>(Seq::<T>::empty(), peak) <==> call_ensures(T::default, (), peak),
        peaked::<T, K>(frame.push(sample), peak) <==> exists|earlier: T|
            peaked::<T, K>(frame, earlier) && #[trigger] call_ensures(
                K::louder,
                (earlier, sample),
                peak,
            ),
{
    let all = frame.push(sample);
    assert(all.drop_last() =~= frame);
    assert(all.last() == sample);
    if peaked::<T, K>(all, peak) {
        let earlier = choose|earlier: T|
            peaked::<T, K>(all.drop_last(), earlier) && #[trigger] call_ensures(
                K::louder,
                (earlier, all.last()),
                peak,
            );
        assert(call_ensures(K::louder, (earlier, sample), peak));
    }
    if exists|earlier: T|
        peaked::<T, K>(frame, earlier) && #[trigger] call_ensures(
            K::louder,
            (earlier, sample),
            peak,
        ) {
        let earlier = choose|earlier: T|
            peaked::<T, K>(frame, earlier) && #[trigger] call_ensures(
                K::louder,
                (earlier, sample),
                peak,
            );
        assert(call_ensures(K::louder, (earlier, all.last()), peak));
    }
}

/// What the limiter does to a frame: every sample is clipped for the one peak of
/// the frame, the envelope follows the peak of what was clipped, and where it is
/// hot then, every sample is sustained at it. No sample is lost or moved.
pub proof fn law_limiter_links_channels<T: Default, K: EffectMath<T>>(
    frame: Seq<T>,
    envelope: T,
    output: Seq<T>,
    next_envelope: T,
)
    requires
        limited::<T, K>(frame, envelope, output, next_envelope),
    ensures
        output.len() == frame.len(),
        exists|peak: T, clipped: Seq<T>, clipped_peak: T, hot: bool|
            {
                &&& #[trigger] peaked::<T, K>(frame, peak)
                &&& clipped.len() == frame.len()
                &&& forall|i: int|
                    0 <= i < frame.len() ==> call_ensures(
                        K::soft_clip,
                        (frame[i], peak),
                        #[trigger] clipped[i],
                    )
                &&& #[trigger] peaked::<T, K>(clipped, clipped_peak)
                &&& #[trigger] call_ensures(K::follow, (clipped_peak, envelope), next_envelope)
                &&& #[trigger] call_ensures(K::is_hot, (next_envelope,), hot)
                &&& forall|i: int|
                    0 <= i < frame.len() ==> if hot {
                        call_ensures(
                            K::sustain,
                            (clipped[i], next_envelope),
                            #[trigger] output[i],
                        )
                    } else {
                        output[i] == clipped[i]
                    }
            },
{
    let (peak, clipped, clipped_peak, hot) = choose|
        peak: T,
        clipped: Seq<T>,
        clipped_peak: T,
        hot: bool,
    | #[trigger]
        limited_through::<T, K>(
            frame,
            envelope,
            peak,
            clipped,
            clipped_peak,
            hot,
            output,
            next_envelope,
        );
    assert(peaked::<T, K>(frame, peak));
    assert(peaked::<T, K>(clipped, clipped_peak));
    assert(call_ensures(K::follow, (clipped_peak, envelope), next_envelope));
    assert(call_ensures(K::is_hot, (next_envelope,), hot));
}

/// A read fills whole frames, one after another, and silences what is left over.
/// Each frame is played by the voices as far on as frames were read before it; a
/// voice that reaches the end of the effect is idle from there on, and the limiter
/// goes on from frame to frame. Afterwards every voice is as far on as frames were
/// read.
pub proof fn law_reads_move_voices_on<T: Copy + Default, K: EffectMath<T>>(
    effect: &mut SoundFx<T, K>,
    buffer: &mut [T],
    frame_count: u64,
    count: usize,
)
    requires
        old(effect).wf(),
        call_ensures(SoundFx::<T, K>::read, (effect, buffer, frame_count), count),
    ensures
        count == old(buffer)@.len(),
        final(buffer)@.len() == old(buffer)@.len(),
        final(effect).positions().len() == old(effect).positions().len(),
        ({
            let channels = old(effect).channel_count() as int;
            let read = count as int / channels;
            &&& forall|v: int|
                0 <= v < old(effect).positions().len() ==> moved_on(
                    old(effect).positions()[v],
                    read,
                    old(effect).pcm().len() as int / channels,
                    #[trigger] final(effect).positions()[v],
                )
            &&& forall|i: int|
                read * channels <= i < count ==> call_ensures(
                    T::default,
                    (),
                    #[trigger] final(buffer)@[i],
                )
            &&& exists|envelopes: Seq<T>| #[trigger]
                frames_follow::<T, K>(
                    old(effect).pcm(),
                    old(effect).positions(),
                    channels,
                    final(buffer)@,
                    read,
                    envelopes,
                ) && envelopes[0] == old(effect).envelope() && envelopes[read] == final(effect).envelope()
        }),
        final(effect).pcm() == old(effect).pcm(),
        final(effect).channel_count() == old(effect).channel_count(),
        final(effect).rate() == old(effect).rate(),
{
    old(effect).law_voices_stay_inside_the_effect();
    let channels = old(effect).channel_count() as int;
    let frames = old(effect).frames();
    let read = count as int / channels;
    let pcm = old(effect).pcm();
    let positions = old(effect).positions();
    assert(pcm.len() as int / channels == frames) by (nonlinear_arith)
        requires
            frames * channels == pcm.len(),
            channels > 0,
    ;
    assert(read >= 0) by (nonlinear_arith)
        requires
            read == count as int / channels,
            channels > 0,
    ;
    let envelopes = choose|envelopes: Seq<T>| #[trigger]
        played::<T, K>(pcm, positions, channels, frames, final(buffer)@, read, envelopes)
            && envelopes.first() == old(effect).envelope() && envelopes.last() == final(effect).envelope();
    assert forall|f: int, at: Seq<u64>|
        0 <= f < read && #[trigger] all_moved_on(
            positions,
            f,
            pcm.len() as int / channels,
            at,
        ) implies frame_played::<T, K>(
        pcm,
        at,
        channels,
        envelopes[f],
        final(buffer)@.subrange(f * channels, f * channels + channels),
        envelopes[f + 1],
    ) by {
        assert(at =~= voices_after(positions, f as nat, frames));
        assert((f + 1) * channels == f * channels + channels) by (nonlinear_arith);
        assert(envelopes[f] == envelopes[f]);
    }
    assert(frames_follow::<T, K>(pcm, positions, channels, final(buffer)@, read, envelopes));
}

/// Whether a voice at `position` is at `after` once `read` frames of an effect of
/// `frames` frames were read.
pub open spec fn moved_on(position: u64, read: int, frames: int, after: u64) -> bool {
    if position != 0xffff_ffff_ffff_ffff && position + read < frames {
        after == position + read
    } else {
        after == 0xffff_ffff_ffff_ffff
    }
}

/// [`moved_on`] of every voice.
pub open spec fn all_moved_on(positions: Seq<u64>, read: int, frames: int, after: Seq<u64>) -> bool {
    &&& after.len() == positions.len()
    &&& forall|v: int|
        0 <= v < positions.len() ==> moved_on(positions[v], read, frames, #[trigger] after[v])
}

/// Whether the first `count` frames of `buffer` are those that the voices play on
/// their way, where `envelopes` are the limiter's before each and after the last.
pub open spec fn frames_follow<T: Default, K: EffectMath<T>>(
    pcm: Seq<T>,
    positions: Seq<u64>,
    channels: int,
    buffer: Seq<T>,
    count: int,
    envelopes: Seq<T>,
) -> bool {
    &&& envelopes.len() == count + 1
    &&& forall|f: int, at: Seq<u64>|
        0 <= f < count && #[trigger] all_moved_on(
            positions,
            f,
            pcm.len() as int / channels,
            at,
        ) ==> frame_played::<T, K>(
            pcm,
            at,
            channels,
            envelopes[f],
            buffer.subrange(f * channels, f * channels + channels),
            envelopes[f + 1],
        )
}

/// A frame that is played goes through both stages: what the voices add up to, and
/// then the limiter, which nothing else reaches.
pub proof fn law_frames_are_mixed_then_limited<T: Default, K: EffectMath<T>>(
    pcm: Seq<T>,
    positions: Seq<u64>,
    channels: int,
    envelope: T,
    output: Seq<T>,
    next_envelope: T,
)
    requires
        frame_played::<T, K>(pcm, positions, channels, envelope, output, next_envelope),
        channels >= 0,
    ensures
        output.len() == channels,
        exists|sums: Seq<T>, mixed: Seq<T>| #[trigger]
            mixed_frame::<T, K>(pcm, positions, channels, sums, mixed) && limited::<T, K>(
                mixed,
                envelope,
                output,
                next_envelope,
            ),
{
    let (sums, mixed) = choose|sums: Seq<T>, mixed: Seq<T>| #[trigger]
        mixed_frame::<T, K>(pcm, positions, channels, sums, mixed) && limited::<T, K>(
            mixed,
            envelope,
            output,
            next_envelope,
        );
    law_limiter_links_channels::<T, K>(mixed, envelope, output, next_envelope);
}

/// A trigger starts exactly one voice at the beginning. It says whether that voice
/// was idle: one is taken where there is any, the first, and otherwise one that is
/// farther on than none. Every other voice goes on as it was.
pub proof fn law_triggers_start_one_voice<T: Copy + Default, K: EffectMath<T>>(
    effect: &mut SoundFx<T, K>,
    idle: bool,
)
    requires
        old(effect).wf(),
        call_ensures(SoundFx::<T, K>::trigger, (effect,), idle),
    ensures
        idle <==> exists|v: int|
            0 <= v < old(effect).positions().len() && #[trigger] old(effect).positions()[v]
                == 0xffff_ffff_ffff_ffff,
        final(effect).positions().len() == old(effect).positions().len(),
        final(effect).pcm() == old(effect).pcm(),
        final(effect).envelope() == old(effect).envelope(),
        exists|voice: int|
            {
                &&& 0 <= voice < old(effect).positions().len()
                &&& #[trigger] final(effect).positions()[voice] == 0
                &&& idle <==> old(effect).positions()[voice] == 0xffff_ffff_ffff_ffff
                &&& forall|v: int|
                    0 <= v < old(effect).positions().len() && v != voice
                        ==> #[trigger] final(effect).positions()[v] == old(effect).positions()[v]
                &&& forall|v: int|
                    0 <= v < old(effect).positions().len() ==> #[trigger] old(effect).positions()[v]
                        <= old(effect).positions()[voice]
                &&& forall|v: int|
                    0 <= v < voice ==> #[trigger] old(effect).positions()[v] < old(effect).positions()[voice]
            },
{
    let positions = old(effect).positions();
    let voice = choose|voice: int| #[trigger]
        triggered_voice(positions, voice) && final(effect).positions() == positions.update(
            voice,
            0,
        );
    assert(final(effect).positions()[voice] == 0);
    if positions.contains(INACTIVE) {
        let v = choose|v: int| 0 <= v < positions.len() && positions[v] == INACTIVE;
        assert(positions[v] == 0xffff_ffff_ffff_ffff);
    }
}

/// A seek moves every voice that plays to the frame, or stops it where the effect
/// has no such frame, and leaves idle voices idle.
pub proof fn law_seeks_move_playing_voices<T: Copy + Default, K: EffectMath<T>>(
    effect: &mut SoundFx<T, K>,
    frame: u64,
    result: Result<(), AudioError>,
    voice: int,
)
    requires
        old(effect).wf(),
        call_ensures(SoundFx::<T, K>::seek, (effect, frame), result),
        0 <= voice < old(effect).positions().len(),
    ensures
        result is Ok,
        final(effect).positions().len() == old(effect).positions().len(),
        final(effect).positions()[voice] == (if old(effect).positions()[voice]
            == 0xffff_ffff_ffff_ffff {
            0xffff_ffff_ffff_ffffu64
        } else if frame * old(effect).channel_count() < old(effect).pcm().len() {
            frame
        } else {
            0xffff_ffff_ffff_ffffu64
        }),
        final(effect).envelope() == old(effect).envelope(),
        final(effect).pcm() == old(effect).pcm(),
{
    old(effect).law_voices_stay_inside_the_effect();
    let frames = old(effect).frames();
    let channels = old(effect).channel_count();
    assert(frame < frames <==> frame * channels < frames * channels) by (nonlinear_arith)
        requires
            channels > 0,
    ;
    assert(final(effect).positions()[voice] == final(effect).positions()[voice]);
}

/// An effect is made exactly from whole frames, at least one, of at least one
/// channel, at a rate and with voices. It is silent and its voices are idle.
pub proof fn law_effects_have_whole_frames<T: Copy + Default, K: EffectMath<T>>(
    pcm: Vec<T>,
    channels: u16,
    sample_rate: u32,
    voice_count: usize,
    effect: Result<SoundFx<T, K>, AudioError>,
)
    requires
        call_ensures(SoundFx::<T, K>::new, (pcm, channels, sample_rate, voice_count), effect),
    ensures
        effect is Ok <==> channels > 0 && sample_rate > 0 && voice_count > 0 && pcm@.len() > 0
            && exists|frames: int| #[trigger] (frames * channels) == pcm@.len(),
        effect is Ok ==> {
            &&& effect->Ok_0.wf()
            &&& effect->Ok_0.pcm() == pcm@
            &&& effect->Ok_0.channel_count() == channels
            &&& effect->Ok_0.rate() == sample_rate
            &&& effect->Ok_0.positions().len() == voice_count
            &&& forall|v: int|
                0 <= v < voice_count ==> #[trigger] effect->Ok_0.positions()[v]
                    == 0xffff_ffff_ffff_ffff
        },
{
    let len = pcm@.len() as int;
    let width = channels as int;
    if channels > 0 {
        vstd::arithmetic::div_mod::lemma_fundamental_div_mod(len, width);
        if len % width == 0 {
            assert((len / width) * width == len) by (nonlinear_arith)
                requires
                    len == width * (len / width) + 0,
            ;
            assert((len / width) * channels == len);
        }
        if exists|frames: int| #[trigger] (frames * channels) == len {
            let frames = choose|frames: int| #[trigger] (frames * channels) == len;
            vstd::arithmetic::div_mod::lemma_mod_multiples_basic(frames, width);
        }
    }
}

} // verus!
