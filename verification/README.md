# uniasset-audioplayer

Audio playback with a mixer, buffered and retriggerable streams, and output
backends for macOS, iOS, Windows, Android and OpenHarmony.

## Layout

- `src/` is the library. It is written in Verus and proved against its contracts,
  but for a few calls into `arc-swap`, `parking_lot` and `core::time`, whose doc
  comments say what is taken on trust.
  - `mixer/`: the live stream list, the snapshot that is published from it, and
    the audio callback (`entry`, `callback`, `kernel`, `mixer`, `published`), and
    what holds from one callback to the next (`continuity`).
  - `stream/`: the ring buffer, read-ahead streams and their worker
    (`buffered_stream/`), and polyphonic sound effects (`soundfx`).
  - `hal/`: the traits of managers and devices, what render callbacks do around
    a pull, and under `platform/` the decisions of each backend: what to call
    next, what to clean up and what to report.
  - `player`: a device and a mixer wired together.
- `tests/` runs the library on concrete values.
- `app/` is ordinary Rust around the library: threads, locks, floating-point
  arithmetic and the native calls.

## Samples

The library does not compute with floating-point numbers. Samples are a type
parameter, fractions of a frame and volumes are bit patterns, and the arithmetic
comes in through `MixMath` and `EffectMath`. Contracts say which operation is
applied to which samples, in which order. A stream at the mixer's rate moves by
whole frames, which the library counts itself: only adding its samples up is left
to the host.

## Backends

A backend asks its module for the next step, performs the native call, and hands
the outcome back. That opening cleans up after itself however the native calls
reply, that the callback is kept alive while a unit can play, and that the manager
hears of a lost endpoint once is proved next to the steps, in the functions whose
names begin with `law_`.
