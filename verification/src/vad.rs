//! Speech segmentation: the decisions that turn a stream of audio frames,
//! each already classified as voice or not, into speech segments.
//!
//! The frames are generic over the sample type, so the decisions are
//! verified independently of the numeric representation of the samples.
use vstd::prelude::*;

verus! {

/// Sample rate the voice detector runs at.
pub const VAD_SAMPLE_RATE: u32 = 16000;

/// Length of one voice-detector frame in milliseconds.
pub const VAD_FRAME_MS: u64 = 30;

/// Number of samples in one voice-detector frame (30 ms at 16 kHz).
pub const VAD_FRAME_SAMPLES: usize = 480;

/// Settings of the segmenter (the speech-detection part of the `[vad]`
/// configuration, together with the capture frame length).
#[derive(Clone, Copy, Debug, PartialEq, Eq)]
pub struct SegmenterSettings {
    pub enabled: bool,
    pub min_speech_ms: u64,
    pub max_speech_ms: u64,
    pub fixed_chunk_ms: Option<u64>,
    pub onset_frames: usize,
    pub hangover_frames: usize,
    pub prefill_frames: usize,
    pub frame_ms: u32,
}

/// A detected speech segment: its samples and its duration.
pub struct Segment<T> {
    pub samples: Vec<T>,
    pub duration_ms: u64,
}

/// Abstract state of a [`Segmenter`].
pub struct SegmenterState<T> {
    /// Samples of the speech segment being collected.
    pub buffer: Seq<T>,
    /// Duration of the collected speech, in milliseconds.
    pub speech_ms: int,
    pub in_speech: bool,
    /// Consecutive voiced frames seen while not yet in speech.
    pub onset: int,
    /// Unvoiced frames still tolerated before the segment ends.
    pub hangover: int,
    /// The most recent frames, kept to prefill a segment when speech starts.
    pub prefill: Seq<Seq<T>>,
}

/// The state in which a segmenter starts, and to which it returns whenever
/// recording is off.
pub open spec fn idle_state<T>() -> SegmenterState<T> {
    SegmenterState {
        buffer: Seq::empty(),
        speech_ms: 0,
        in_speech: false,
        onset: 0,
        hangover: 0,
        prefill: Seq::empty(),
    }
}

/// Settings under which the segmenter's counters cannot overflow.
pub open spec fn settings_ok(p: SegmenterSettings) -> bool {
    &&& p.prefill_frames < usize::MAX
    &&& (p.prefill_frames + 1) * p.frame_ms <= u64::MAX
    &&& p.max_speech_ms + p.frame_ms <= u64::MAX + 1
}

/// The prefill window after adding `frame`: the last `prefill_frames + 1` frames.
pub open spec fn next_prefill<T>(p: SegmenterSettings, prefill: Seq<Seq<T>>, frame: Seq<T>) -> Seq<
    Seq<T>,
> {
    let q = prefill.push(frame);
    let cap = p.prefill_frames + 1;
    if q.len() > cap {
        q.skip(q.len() - cap)
    } else {
        q
    }
}

/// Emits the collected buffer as a segment (if it holds any sample) and
/// empties it.
pub open spec fn flush<T>(buffer: Seq<T>, duration: int) -> Seq<(Seq<T>, int)> {
    if buffer.len() > 0 {
        seq![(buffer, duration)]
    } else {
        Seq::empty()
    }
}

/// The voice/no-voice decision for one frame, before the chunk limits apply.
pub open spec fn classify_step<T>(
    p: SegmenterSettings,
    s: SegmenterState<T>,
    frame: Seq<T>,
    is_voice: bool,
    prefill: Seq<Seq<T>>,
) -> (SegmenterState<T>, Seq<(Seq<T>, int)>) {
    if !s.in_speech && is_voice {
        if s.onset + 1 >= p.onset_frames {
            // speech starts: the prefill window becomes the start of the segment
            (
                SegmenterState {
                    buffer: s.buffer + prefill.flatten(),
                    speech_ms: s.speech_ms + prefill.len() * p.frame_ms,
                    in_speech: true,
                    onset: 0,
                    hangover: p.hangover_frames as int,
                    prefill,
                },
                Seq::empty(),
            )
        } else {
            (SegmenterState { onset: s.onset + 1, prefill, ..s }, Seq::empty())
        }
    } else if s.in_speech && is_voice {
        (
            SegmenterState {
                buffer: s.buffer + frame,
                speech_ms: s.speech_ms + p.frame_ms,
                hangover: p.hangover_frames as int,
                prefill,
                ..s
            },
            Seq::empty(),
        )
    } else if s.in_speech && !is_voice {
        if s.hangover > 0 {
            (
                SegmenterState {
                    buffer: s.buffer + frame,
                    speech_ms: s.speech_ms + p.frame_ms,
                    hangover: s.hangover - 1,
                    prefill,
                    ..s
                },
                Seq::empty(),
            )
        } else {
            // the segment ends: it is kept only if it is long enough
            (
                SegmenterState {
                    buffer: Seq::empty(),
                    speech_ms: 0,
                    in_speech: false,
                    prefill,
                    ..s
                },
                if s.speech_ms >= p.min_speech_ms {
                    flush(s.buffer, s.speech_ms)
                } else {
                    Seq::empty()
                },
            )
        }
    } else {
        (SegmenterState { onset: 0, prefill, ..s }, Seq::empty())
    }
}

/// The fixed-chunk and maximum-length limits applied while in speech.
pub open spec fn limit_step<T>(p: SegmenterSettings, s: SegmenterState<T>) -> (
    SegmenterState<T>,
    Seq<(Seq<T>, int)>,
) {
    if !s.in_speech {
        (s, Seq::empty())
    } else {
        let (s1, e1) = match p.fixed_chunk_ms {
            Some(c) => if s.speech_ms >= c {
                (SegmenterState { buffer: Seq::empty(), speech_ms: 0, ..s }, flush(s.buffer, s.speech_ms))
            } else {
                (s, Seq::empty())
            },
            None => (s, Seq::empty()),
        };
        if s1.speech_ms >= p.max_speech_ms {
            (
                SegmenterState { buffer: Seq::empty(), speech_ms: 0, ..s1 },
                e1 + flush(s1.buffer, s1.speech_ms),
            )
        } else {
            (s1, e1)
        }
    }
}

/// One recorded frame: the new state and the segments emitted.
pub open spec fn frame_step<T>(
    p: SegmenterSettings,
    s: SegmenterState<T>,
    frame: Seq<T>,
    is_voice: bool,
) -> (SegmenterState<T>, Seq<(Seq<T>, int)>) {
    let prefill = next_prefill(p, s.prefill, frame);
    let (s1, e1) = classify_step(p, s, frame, is_voice, prefill);
    let (s2, e2) = limit_step(p, s1);
    (s2, e1 + e2)
}

/// The invariant that every reachable segmenter state satisfies.
pub open spec fn state_ok<T>(p: SegmenterSettings, s: SegmenterState<T>) -> bool {
    &&& s.prefill.len() <= p.prefill_frames + 1
    &&& !s.in_speech ==> s.speech_ms == 0 && s.buffer.len() == 0
    &&& s.in_speech ==> 0 <= s.speech_ms && (s.speech_ms < p.max_speech_ms || s.speech_ms == 0)
    &&& s.in_speech ==> s.onset == 0
    &&& 0 <= s.onset && (s.onset == 0 || s.onset < p.onset_frames)
    &&& 0 <= s.hangover <= p.hangover_frames
}


/// A segment is emitted only with at least one sample, and only once it is
/// long enough: a segment that ends after the hangover lasts at least
/// `min_speech_ms`, a fixed chunk at least `fixed_chunk_ms`, and a forced cut
/// at least `max_speech_ms`.
pub proof fn lemma_emitted_segments_nonempty_and_long_enough<T>(
    p: SegmenterSettings,
    s: SegmenterState<T>,
    frame: Seq<T>,
    is_voice: bool,
    i: int,
)
    requires
        settings_ok(p),
        state_ok(p, s),
        0 <= i < frame_step(p, s, frame, is_voice).1.len(),
    ensures
        ({
            let (samples, d) = frame_step(p, s, frame, is_voice).1[i];
            &&& samples.len() > 0
            &&& d >= p.min_speech_ms || d >= p.max_speech_ms || (p.fixed_chunk_ms matches Some(
                c,
            ) && d >= c)
        }),
{
    let prefill = next_prefill(p, s.prefill, frame);
    let (s1, e1) = classify_step(p, s, frame, is_voice, prefill);
    let (s2, e2) = limit_step(p, s1);
    assert(frame_step(p, s, frame, is_voice).1 == e1 + e2);
    if i < e1.len() {
        assert((e1 + e2)[i] == e1[i]);
    } else {
        assert((e1 + e2)[i] == e2[i - e1.len()]);
    }
}

/// Every frame keeps the segmenter in a reachable state: while speech is
/// being collected its duration stays below `max_speech_ms`, and outside
/// speech nothing is held.
pub proof fn lemma_frame_step_keeps_state_ok<T>(
    p: SegmenterSettings,
    s: SegmenterState<T>,
    frame: Seq<T>,
    is_voice: bool,
)
    requires
        settings_ok(p),
        state_ok(p, s),
    ensures
        state_ok(p, frame_step(p, s, frame, is_voice).0),
{
    let q = s.prefill.push(frame);
    assert(next_prefill(p, s.prefill, frame).len() <= p.prefill_frames + 1);
}

/// Outside speech, an unvoiced frame never starts a segment, emits nothing,
/// and restarts the count of consecutive voiced frames.
pub proof fn lemma_silence_outside_speech_is_inert<T>(
    p: SegmenterSettings,
    s: SegmenterState<T>,
    frame: Seq<T>,
)
    requires
        settings_ok(p),
        state_ok(p, s),
        !s.in_speech,
    ensures
        !frame_step(p, s, frame, false).0.in_speech,
        frame_step(p, s, frame, false).0.onset == 0,
        frame_step(p, s, frame, false).0.buffer == s.buffer,
        frame_step(p, s, frame, false).1.len() == 0,
{
}

/// Speech starts only on the `onset_frames`-th consecutive voiced frame:
/// before that, a voiced frame only advances the count.
pub proof fn lemma_onset_needs_consecutive_voiced_frames<T>(
    p: SegmenterSettings,
    s: SegmenterState<T>,
    frame: Seq<T>,
)
    requires
        settings_ok(p),
        state_ok(p, s),
        !s.in_speech,
        s.onset + 1 < p.onset_frames,
    ensures
        !frame_step(p, s, frame, true).0.in_speech,
        frame_step(p, s, frame, true).0.onset == s.onset + 1,
        frame_step(p, s, frame, true).1.len() == 0,
{
}

/// When speech starts, the segment begins with the prefill window, which
/// ends with the frame that completed the onset.
pub proof fn lemma_speech_start_includes_prefill<T>(
    p: SegmenterSettings,
    s: SegmenterState<T>,
    frame: Seq<T>,
)
    requires
        settings_ok(p),
        state_ok(p, s),
        !s.in_speech,
        s.onset + 1 >= p.onset_frames,
    ensures
        classify_step(p, s, frame, true, next_prefill(p, s.prefill, frame)).0.in_speech,
        classify_step(p, s, frame, true, next_prefill(p, s.prefill, frame)).0.buffer
            == next_prefill(p, s.prefill, frame).flatten(),
        next_prefill(p, s.prefill, frame).last() == frame,
{
    let q = s.prefill.push(frame);
    let cap = p.prefill_frames + 1;
    if q.len() > cap {
        assert(q.skip(q.len() - cap).last() == q.last());
    }
}

/// The samples of a run of emitted segments, one segment after another.
pub open spec fn emitted_samples<T>(e: Seq<(Seq<T>, int)>) -> Seq<T>
    decreases e.len(),
{
    if e.len() == 0 {
        Seq::empty()
    } else {
        emitted_samples(e.drop_last()) + e.last().0
    }
}

proof fn lemma_emitted_samples_concat<T>(a: Seq<(Seq<T>, int)>, b: Seq<(Seq<T>, int)>)
    ensures
        emitted_samples(a + b) == emitted_samples(a) + emitted_samples(b),
    decreases b.len(),
{
    if b.len() == 0 {
        assert(a + b =~= a);
    } else {
        lemma_emitted_samples_concat(a, b.drop_last());
        assert((a + b).drop_last() =~= a + b.drop_last());
        assert((a + b).last() == b.last());
    }
}

proof fn lemma_flush_samples<T>(buffer: Seq<T>, duration: int)
    ensures
        emitted_samples(flush(buffer, duration)) == buffer,
        flush(buffer, duration).len() <= 1,
{
    let e = flush(buffer, duration);
    assert(emitted_samples(Seq::<(Seq<T>, int)>::empty()) == Seq::<T>::empty());
    if buffer.len() > 0 {
        assert(e.drop_last() =~= Seq::<(Seq<T>, int)>::empty());
        assert(e.last().0 == buffer);
        assert(Seq::<T>::empty() + buffer =~= buffer);
    } else {
        assert(buffer =~= Seq::<T>::empty());
    }
}

/// The segmenter run from `s` on frames that all have the same voice
/// decision: the state after them, and every segment emitted on the way.
pub open spec fn run_frames<T>(p: SegmenterSettings, s: SegmenterState<T>, frames: Seq<Seq<T>>, is_voice: bool) -> (
    SegmenterState<T>,
    Seq<(Seq<T>, int)>,
)
    decreases frames.len(),
{
    if frames.len() == 0 {
        (s, Seq::empty())
    } else {
        let (s1, e1) = run_frames(p, s, frames.drop_last(), is_voice);
        let (s2, e2) = frame_step(p, s1, frames.last(), is_voice);
        (s2, e1 + e2)
    }
}

/// A frame emits at most one segment, and once it has emitted one the
/// segmenter holds nothing: what comes after a cut is collected afresh.
pub proof fn lemma_emission_empties_buffer<T>(
    p: SegmenterSettings,
    s: SegmenterState<T>,
    frame: Seq<T>,
    is_voice: bool,
)
    requires
        settings_ok(p),
        state_ok(p, s),
    ensures
        frame_step(p, s, frame, is_voice).1.len() <= 1,
        frame_step(p, s, frame, is_voice).1.len() > 0 ==> frame_step(p, s, frame, is_voice).0.buffer.len()
            == 0,
{
    let prefill = next_prefill(p, s.prefill, frame);
    let (s1, e1) = classify_step(p, s, frame, is_voice, prefill);
    lemma_flush_samples(s.buffer, s.speech_ms);
    lemma_flush_samples(s1.buffer, s1.speech_ms);
    lemma_flush_samples(Seq::<T>::empty(), 0);
    assert(flush(Seq::<T>::empty(), 0int).len() == 0);
}

/// In speech, a frame that is voiced, or unvoiced while the hangover lasts,
/// keeps the speech going: a voiced frame sets the hangover back to
/// `hangover_frames`, an unvoiced one uses one frame of it.  The frame's
/// samples are added to what is held, and whatever a cut emits is taken out
/// of it, so every sample is either still held or emitted, once.  Without a
/// fixed chunk length and below the maximum length nothing is emitted.
pub proof fn lemma_speech_frame_keeps_speech<T>(
    p: SegmenterSettings,
    s: SegmenterState<T>,
    frame: Seq<T>,
    is_voice: bool,
)
    requires
        settings_ok(p),
        state_ok(p, s),
        s.in_speech,
        is_voice || s.hangover > 0,
    ensures
        ({
            let (s2, e) = frame_step(p, s, frame, is_voice);
            &&& s2.in_speech
            &&& is_voice ==> s2.hangover == p.hangover_frames
            &&& !is_voice ==> s2.hangover == s.hangover - 1
            &&& emitted_samples(e) + s2.buffer == s.buffer + frame
            &&& (p.fixed_chunk_ms is None && s.speech_ms + p.frame_ms < p.max_speech_ms) ==> {
                &&& e.len() == 0
                &&& s2.buffer == s.buffer + frame
                &&& s2.speech_ms == s.speech_ms + p.frame_ms
            }
        }),
{
    let prefill = next_prefill(p, s.prefill, frame);
    let (s1, e1) = classify_step(p, s, frame, is_voice, prefill);
    let (s2, e2) = limit_step(p, s1);
    assert(e1 =~= Seq::<(Seq<T>, int)>::empty());
    assert(frame_step(p, s, frame, is_voice).1 == e1 + e2);
    assert(e1 + e2 =~= e2);
    assert(s1.buffer == s.buffer + frame);
    lemma_flush_samples(s1.buffer, s1.speech_ms);
    lemma_flush_samples(Seq::<T>::empty(), 0);
    match p.fixed_chunk_ms {
        Some(c) => if s1.speech_ms >= c {
            let e1c = flush(s1.buffer, s1.speech_ms);
            let t = SegmenterState { buffer: Seq::<T>::empty(), speech_ms: 0, ..s1 };
            if t.speech_ms >= p.max_speech_ms {
                lemma_emitted_samples_concat(e1c, flush(t.buffer, t.speech_ms));
                assert(emitted_samples(flush(t.buffer, t.speech_ms)) == Seq::<T>::empty());
            }
        } else {
            if s1.speech_ms >= p.max_speech_ms {
                lemma_emitted_samples_concat(Seq::<(Seq<T>, int)>::empty(), flush(s1.buffer, s1.speech_ms));
            }
        },
        None => {
            if s1.speech_ms >= p.max_speech_ms {
                lemma_emitted_samples_concat(Seq::<(Seq<T>, int)>::empty(), flush(s1.buffer, s1.speech_ms));
            }
        },
    }
    assert(emitted_samples(Seq::<(Seq<T>, int)>::empty()) == Seq::<T>::empty());
    assert(Seq::<T>::empty() + s2.buffer =~= s2.buffer);
    assert(emitted_samples(e2) + Seq::<T>::empty() =~= emitted_samples(e2));
}

/// A run of unvoiced frames no longer than the hangover left keeps the
/// speech going: each frame uses one frame of the hangover, its samples are
/// added to what is held (a cut only moves what is held out, once), and
/// without a fixed chunk length and below the maximum length nothing is
/// emitted.
pub proof fn lemma_silence_within_hangover<T>(p: SegmenterSettings, s: SegmenterState<T>, silent: Seq<Seq<T>>)
    requires
        settings_ok(p),
        state_ok(p, s),
        s.in_speech,
        silent.len() <= s.hangover,
    ensures
        ({
            let (r, e) = run_frames(p, s, silent, false);
            &&& state_ok(p, r)
            &&& r.in_speech
            &&& r.hangover == s.hangover - silent.len()
            &&& emitted_samples(e) + r.buffer == s.buffer + silent.flatten()
            &&& (p.fixed_chunk_ms is None && s.speech_ms + silent.len() * p.frame_ms < p.max_speech_ms) ==> {
                &&& e.len() == 0
                &&& r.buffer == s.buffer + silent.flatten()
                &&& r.speech_ms == s.speech_ms + silent.len() * p.frame_ms
            }
        }),
    decreases silent.len(),
{
    broadcast use Seq::lemma_flatten_push;
    if silent.len() == 0 {
        assert(silent.flatten() =~= Seq::<T>::empty());
        assert(emitted_samples(Seq::<(Seq<T>, int)>::empty()) == Seq::<T>::empty());
        assert(Seq::<T>::empty() + s.buffer =~= s.buffer);
        assert(s.buffer + Seq::<T>::empty() =~= s.buffer);
    } else {
        let pre = silent.drop_last();
        let f = silent.last();
        lemma_silence_within_hangover(p, s, pre);
        let (r1, e1) = run_frames(p, s, pre, false);
        lemma_speech_frame_keeps_speech(p, r1, f, false);
        lemma_frame_step_keeps_state_ok(p, r1, f, false);
        let (r, e2) = frame_step(p, r1, f, false);
        lemma_emitted_samples_concat(e1, e2);
        assert(silent == pre.push(f));
        assert(silent.flatten() == pre.flatten() + f);
        assert(emitted_samples(e1 + e2) + r.buffer =~= emitted_samples(e1) + (emitted_samples(e2) + r.buffer));
        assert(s.buffer + silent.flatten() =~= (s.buffer + pre.flatten()) + f);
        if p.fixed_chunk_ms is None && s.speech_ms + silent.len() * p.frame_ms < p.max_speech_ms {
            let k = silent.len() as int;
            assert(k * p.frame_ms == (k - 1) * p.frame_ms + p.frame_ms) by (nonlinear_arith);
            assert((k - 1) * p.frame_ms >= 0) by (nonlinear_arith)
                requires
                    k >= 1,
            ;
            assert(e1 + e2 =~= e1);
        }
    }
}

/// While in speech, a voiced frame sets the hangover back to
/// `hangover_frames`, so the next `hangover_frames` unvoiced frames do not
/// end the speech: their samples are added to what is held, and without a
/// fixed chunk length and below the maximum length none of them emits
/// anything.
pub proof fn lemma_voiced_frame_bridges_hangover<T>(
    p: SegmenterSettings,
    s: SegmenterState<T>,
    voiced: Seq<T>,
    silent: Seq<Seq<T>>,
)
    requires
        settings_ok(p),
        state_ok(p, s),
        s.in_speech,
        silent.len() <= p.hangover_frames,
    ensures
        ({
            let s1 = frame_step(p, s, voiced, true).0;
            let (r, e) = run_frames(p, s1, silent, false);
            &&& s1.in_speech
            &&& s1.hangover == p.hangover_frames
            &&& r.in_speech
            &&& r.hangover == p.hangover_frames - silent.len()
            &&& emitted_samples(e) + r.buffer == s1.buffer + silent.flatten()
            &&& (p.fixed_chunk_ms is None && s1.speech_ms + silent.len() * p.frame_ms < p.max_speech_ms) ==> {
                &&& e.len() == 0
                &&& r.buffer == s1.buffer + silent.flatten()
            }
        }),
{
    lemma_speech_frame_keeps_speech(p, s, voiced, true);
    lemma_frame_step_keeps_state_ok(p, s, voiced, true);
    lemma_silence_within_hangover(p, frame_step(p, s, voiced, true).0, silent);
}

/// Over any run of voiced frames in speech, the speech goes on, and every
/// sample of those frames is emitted at most once: the segments emitted,
/// one after another, followed by what is still held, are exactly the
/// samples held at the start followed by those of the frames.  A cut at the
/// maximum (or fixed chunk) length starts a fresh segment.
pub proof fn lemma_speech_samples_emitted_once<T>(p: SegmenterSettings, s: SegmenterState<T>, frames: Seq<Seq<T>>)
    requires
        settings_ok(p),
        state_ok(p, s),
        s.in_speech,
    ensures
        state_ok(p, run_frames(p, s, frames, true).0),
        run_frames(p, s, frames, true).0.in_speech,
        emitted_samples(run_frames(p, s, frames, true).1) + run_frames(p, s, frames, true).0.buffer
            == s.buffer + frames.flatten(),
    decreases frames.len(),
{
    broadcast use Seq::lemma_flatten_push;
    if frames.len() == 0 {
        assert(frames.flatten() =~= Seq::<T>::empty());
        assert(emitted_samples(Seq::<(Seq<T>, int)>::empty()) == Seq::<T>::empty());
        assert(Seq::<T>::empty() + s.buffer =~= s.buffer);
        assert(s.buffer + Seq::<T>::empty() =~= s.buffer);
    } else {
        let pre = frames.drop_last();
        let f = frames.last();
        lemma_speech_samples_emitted_once(p, s, pre);
        let (r1, e1) = run_frames(p, s, pre, true);
        lemma_speech_frame_keeps_speech(p, r1, f, true);
        lemma_frame_step_keeps_state_ok(p, r1, f, true);
        let (r, e2) = frame_step(p, r1, f, true);
        lemma_emitted_samples_concat(e1, e2);
        assert(frames == pre.push(f));
        assert(frames.flatten() == pre.flatten() + f);
        assert(emitted_samples(e1 + e2) + r.buffer =~= emitted_samples(e1) + (emitted_samples(e2) + r.buffer));
        assert(s.buffer + frames.flatten() =~= (s.buffer + pre.flatten()) + f);
    }
}

/// The view of an emitted segment.
pub open spec fn segment_view<T>(seg: Segment<T>) -> (Seq<T>, int) {
    (seg.samples@, seg.duration_ms as int)
}

/// Speech segmenter driven by voice-activity decisions.
pub struct Segmenter<T> {
    settings: SegmenterSettings,
    speech_buffer: Vec<T>,
    speech_ms: u64,
    in_speech: bool,
    onset_counter: usize,
    hangover_counter: usize,
    prefill: Vec<Vec<T>>,
}

/// Copies `src` onto the end of `dst`.
pub fn append_copy<T: Copy>(dst: &mut Vec<T>, src: &Vec<T>)
    ensures
        final(dst)@ == old(dst)@ + src@,
{
    let n = src.len();
    for i in 0..n
        invariant
            n == src@.len(),
            dst@ == old(dst)@ + src@.take(i as int),
    {
        dst.push(src[i]);
        assert(src@.take(i + 1) == src@.take(i as int).push(src@[i as int]));
    }
    assert(src@.take(n as int) == src@);
}

/// A copy of a frame.
pub fn copy_frame<T: Copy>(src: &Vec<T>) -> (r: Vec<T>)
    ensures
        r@ == src@,
{
    let mut r: Vec<T> = Vec::new();
    append_copy(&mut r, src);
    r
}

/// The views of a sequence of frames.
pub open spec fn frames_view<T>(frames: Seq<Vec<T>>) -> Seq<Seq<T>> {
    frames.map_values(|f: Vec<T>| f@)
}

impl<T: Copy> Segmenter<T> {
    /// The settings this segmenter was created with.
    pub closed spec fn settings_spec(&self) -> SegmenterSettings {
        self.settings
    }

    /// The abstract state.
    pub closed spec fn state(&self) -> SegmenterState<T> {
        SegmenterState {
            buffer: self.speech_buffer@,
            speech_ms: self.speech_ms as int,
            in_speech: self.in_speech,
            onset: self.onset_counter as int,
            hangover: self.hangover_counter as int,
            prefill: frames_view(self.prefill@),
        }
    }

    /// Well-formedness: valid settings and a reachable state.
    pub closed spec fn wf(&self) -> bool {
        settings_ok(self.settings) && state_ok(self.settings, self.state())
    }

    /// A segmenter in the idle state.
    pub fn new(settings: SegmenterSettings) -> (s: Self)
        requires
            settings_ok(settings),
        ensures
            s.wf(),
            s.settings_spec() == settings,
            s.state() == idle_state::<T>(),
    {
        let s = Segmenter {
            settings,
            speech_buffer: Vec::new(),
            speech_ms: 0,
            in_speech: false,
            onset_counter: 0,
            hangover_counter: 0,
            prefill: Vec::new(),
        };
        assert(frames_view(s.prefill@) == Seq::<Seq<T>>::empty());
        s
    }

    /// Whether a speech segment is currently being collected.
    pub fn in_speech(&self) -> (r: bool)
        ensures
            r == self.state().in_speech,
    {
        self.in_speech
    }

    /// Duration of the speech collected so far, in milliseconds.
    pub fn speech_ms(&self) -> (r: u64)
        ensures
            r == self.state().speech_ms,
    {
        self.speech_ms
    }

    /// Number of samples collected for the current segment.
    pub fn buffered_samples(&self) -> (r: usize)
        ensures
            r == self.state().buffer.len(),
    {
        self.speech_buffer.len()
    }

    /// Recording is off: everything collected is discarded.
    pub fn reset(&mut self)
        requires
            old(self).wf(),
        ensures
            final(self).wf(),
            final(self).settings_spec() == old(self).settings_spec(),
            final(self).state() == idle_state::<T>(),
    {
        self.speech_buffer.clear();
        self.speech_ms = 0;
        self.in_speech = false;
        self.onset_counter = 0;
        self.hangover_counter = 0;
        self.prefill.clear();
        assert(frames_view(self.prefill@) == Seq::<Seq<T>>::empty());
    }

    /// Takes the collected samples out as a segment of the given duration,
    /// if there are any.
    fn flush_segment(&mut self, out: &mut Vec<Segment<T>>, duration_ms: u64)
        ensures
            final(self).speech_buffer@ == Seq::<T>::empty(),
            final(self).settings == old(self).settings,
            final(self).speech_ms == old(self).speech_ms,
            final(self).in_speech == old(self).in_speech,
            final(self).onset_counter == old(self).onset_counter,
            final(self).hangover_counter == old(self).hangover_counter,
            final(self).prefill == old(self).prefill,
            final(out)@.map_values(|g: Segment<T>| segment_view(g)) == old(out)@.map_values(
                |g: Segment<T>| segment_view(g),
            ) + flush(old(self).speech_buffer@, duration_ms as int),
    {
        let ghost before = out@;
        if self.speech_buffer.len() > 0 {
            let mut samples: Vec<T> = Vec::new();
            std::mem::swap(&mut samples, &mut self.speech_buffer);
            out.push(Segment { samples, duration_ms });
            assert(out@.map_values(|g: Segment<T>| segment_view(g)) == before.map_values(
                |g: Segment<T>| segment_view(g),
            ).push((samples@, duration_ms as int)));
        } else {
            assert(flush(old(self).speech_buffer@, duration_ms as int) == Seq::<
                (Seq<T>, int),
            >::empty());
            assert(out@.map_values(|g: Segment<T>| segment_view(g)) == before.map_values(
                |g: Segment<T>| segment_view(g),
            ) + Seq::<(Seq<T>, int)>::empty());
        }
    }

    /// Adds a frame to the prefill window, dropping the oldest frames beyond
    /// `prefill_frames + 1`.
    fn push_prefill(&mut self, frame: &Vec<T>)
        requires
            old(self).wf(),
        ensures
            final(self).settings == old(self).settings,
            final(self).speech_buffer == old(self).speech_buffer,
            final(self).speech_ms == old(self).speech_ms,
            final(self).in_speech == old(self).in_speech,
            final(self).onset_counter == old(self).onset_counter,
            final(self).hangover_counter == old(self).hangover_counter,
            frames_view(final(self).prefill@) == next_prefill(
                old(self).settings,
                frames_view(old(self).prefill@),
                frame@,
            ),
    {
        let ghost p = self.settings;
        let ghost q = frames_view(self.prefill@).push(frame@);
        let copy = copy_frame(frame);
        self.prefill.push(copy);
        assert(frames_view(self.prefill@) == q);
        let cap = self.settings.prefill_frames + 1;
        let ghost mut dropped: int = 0;
        while self.prefill.len() > cap
            invariant
                cap == p.prefill_frames + 1,
                q.len() <= cap + 1,
                0 <= dropped <= q.len(),
                frames_view(self.prefill@) == q.skip(dropped),
                self.prefill@.len() == q.len() - dropped,
                dropped > 0 ==> q.len() - dropped == cap,
                self.settings == old(self).settings,
                self.speech_buffer == old(self).speech_buffer,
                self.speech_ms == old(self).speech_ms,
                self.in_speech == old(self).in_speech,
                self.onset_counter == old(self).onset_counter,
                self.hangover_counter == old(self).hangover_counter,
            decreases self.prefill@.len(),
        {
            let ghost before = self.prefill@;
            self.prefill.remove(0);
            proof {
                assert(self.prefill@ == before.drop_first());
                assert forall|k: int| 0 <= k < self.prefill@.len() implies frames_view(
                    self.prefill@,
                )[k] == q.skip(dropped + 1)[k] by {
                    assert(frames_view(before)[k + 1] == q.skip(dropped)[k + 1]);
                }
                assert(frames_view(self.prefill@) =~= q.skip(dropped + 1));
                dropped = dropped + 1;
            }
        }
        proof {
            if q.len() <= cap {
                assert(dropped == 0);
                assert(q.skip(0) == q);
            }
        }
    }

    /// Appends the whole prefill window to the speech buffer.
    fn prefill_into_buffer(&mut self)
        requires
            old(self).wf(),
            old(self).speech_ms as int + old(self).prefill@.len() * old(self).settings.frame_ms
                <= u64::MAX,
        ensures
            final(self).settings == old(self).settings,
            final(self).prefill == old(self).prefill,
            final(self).in_speech == old(self).in_speech,
            final(self).onset_counter == old(self).onset_counter,
            final(self).hangover_counter == old(self).hangover_counter,
            final(self).speech_buffer@ == old(self).speech_buffer@ + frames_view(
                old(self).prefill@,
            ).flatten(),
            final(self).speech_ms as int == old(self).speech_ms as int + old(self).prefill@.len()
                * old(self).settings.frame_ms,
    {
        let ghost fv = frames_view(self.prefill@);
        let ghost ms0 = self.speech_ms as int;
        let ghost b0 = self.speech_buffer@;
        let fm = self.settings.frame_ms as u64;
        let n = self.prefill.len();
        let mut i: usize = 0;
        while i < n
            invariant
                n == self.prefill@.len(),
                fv == frames_view(self.prefill@),
                fm == self.settings.frame_ms,
                i <= n,
                ms0 + n * fm <= u64::MAX,
                self.speech_buffer@ == b0 + fv.take(i as int).flatten(),
                self.speech_ms as int == ms0 + i * fm,
                self.settings == old(self).settings,
                self.prefill == old(self).prefill,
                self.in_speech == old(self).in_speech,
                self.onset_counter == old(self).onset_counter,
                self.hangover_counter == old(self).hangover_counter,
                ms0 == old(self).speech_ms,
                b0 == old(self).speech_buffer@,
            decreases n - i,
        {
            append_copy(&mut self.speech_buffer, &self.prefill[i]);
            proof {
                assert(fv.take(i + 1) == fv.take(i as int).push(fv[i as int]));
                fv.take(i as int).lemma_flatten_push(fv[i as int]);
                assert((i + 1) * fm == i * fm + fm) by (nonlinear_arith);
                assert((i + 1) * fm <= n * fm) by (nonlinear_arith)
                    requires
                        i + 1 <= n,
                ;
            }
            self.speech_ms = self.speech_ms + fm;
            i = i + 1;
        }
        assert(fv.take(n as int) == fv);
    }

    /// Processes one frame recorded while recording is on, with the voice
    /// detector's verdict for it; returns the segments completed by it.
    pub fn on_frame(&mut self, frame: Vec<T>, is_voice: bool) -> (out: Vec<Segment<T>>)
        requires
            old(self).wf(),
        ensures
            final(self).wf(),
            final(self).settings_spec() == old(self).settings_spec(),
            ({
                let (s2, emitted) = frame_step(
                    old(self).settings_spec(),
                    old(self).state(),
                    frame@,
                    is_voice,
                );
                &&& final(self).state() == s2
                &&& out@.map_values(|g: Segment<T>| segment_view(g)) == emitted
            }),
    {
        let ghost p = self.settings;
        let ghost s0 = self.state();
        let ghost pre = next_prefill(p, s0.prefill, frame@);
        let mut out: Vec<Segment<T>> = Vec::new();
        proof {
            assert(out@.map_values(|g: Segment<T>| segment_view(g)) == Seq::<
                (Seq<T>, int),
            >::empty());
        }
        self.push_prefill(&frame);
        assert(self.state().prefill == pre);
        let fm = self.settings.frame_ms as u64;
        let ghost e1: Seq<(Seq<T>, int)>;
        if !self.in_speech && is_voice {
            self.onset_counter = self.onset_counter + 1;
            if self.onset_counter >= self.settings.onset_frames {
                self.in_speech = true;
                self.hangover_counter = self.settings.hangover_frames;
                self.onset_counter = 0;
                proof {
                    let pl = self.prefill@.len();
                    assert(pl * fm <= (p.prefill_frames + 1) * fm) by (nonlinear_arith)
                        requires
                            pl <= p.prefill_frames + 1,
                    ;
                }
                self.prefill_into_buffer();
            }
            proof {
                e1 = Seq::empty();
            }
        } else if self.in_speech && is_voice {
            self.hangover_counter = self.settings.hangover_frames;
            append_copy(&mut self.speech_buffer, &frame);
            self.speech_ms = self.speech_ms + fm;
            proof {
                e1 = Seq::empty();
            }
        } else if self.in_speech && !is_voice {
            if self.hangover_counter > 0 {
                self.hangover_counter = self.hangover_counter - 1;
                append_copy(&mut self.speech_buffer, &frame);
                self.speech_ms = self.speech_ms + fm;
                proof {
                    e1 = Seq::empty();
                }
            } else {
                if self.speech_ms >= self.settings.min_speech_ms {
                    let d = self.speech_ms;
                    self.flush_segment(&mut out, d);
                } else {
                    self.speech_buffer.clear();
                    proof {
                        assert(out@.map_values(|g: Segment<T>| segment_view(g)) == Seq::<
                            (Seq<T>, int),
                        >::empty());
                    }
                }
                self.speech_ms = 0;
                self.in_speech = false;
                proof {
                    e1 = out@.map_values(|g: Segment<T>| segment_view(g));
                }
            }
        } else {
            self.onset_counter = 0;
            proof {
                e1 = Seq::empty();
            }
        }
        let ghost s1 = self.state();
        assert((s1, e1) == classify_step(p, s0, frame@, is_voice, pre));
        if self.in_speech {
            if let Some(chunk_ms) = self.settings.fixed_chunk_ms {
                if self.speech_ms >= chunk_ms {
                    let d = self.speech_ms;
                    self.flush_segment(&mut out, d);
                    self.speech_ms = 0;
                }
            }
            if self.speech_ms >= self.settings.max_speech_ms {
                let d = self.speech_ms;
                self.flush_segment(&mut out, d);
                self.speech_ms = 0;
            }
        }
        proof {
            let (s2, e2) = limit_step(p, s1);
            assert(self.state() == s2);
            assert(out@.map_values(|g: Segment<T>| segment_view(g)) == e1 + e2);
        }
        out
    }
}

/// Segmenter used when voice detection is disabled: audio is cut into
/// fixed-length chunks (or collected without end when no chunk length is
/// configured).
pub struct Passthrough<T> {
    frame_ms: u32,
    fixed_chunk_ms: Option<u64>,
    speech_buffer: Vec<T>,
    speech_ms: u64,
}

impl<T: Copy> Passthrough<T> {
    /// The collected samples.
    pub closed spec fn buffer(&self) -> Seq<T> {
        self.speech_buffer@
    }

    /// Duration of the collected audio.
    pub closed spec fn collected_ms(&self) -> int {
        self.speech_ms as int
    }

    /// Frame length this passthrough was created with.
    pub closed spec fn frame_ms_spec(&self) -> u32 {
        self.frame_ms
    }

    /// Chunk length this passthrough was created with.
    pub closed spec fn chunk_ms_spec(&self) -> Option<u64> {
        self.fixed_chunk_ms
    }

    /// An empty passthrough.
    pub fn new(frame_ms: u32, fixed_chunk_ms: Option<u64>) -> (s: Self)
        ensures
            s.buffer() == Seq::<T>::empty(),
            s.collected_ms() == 0,
            s.frame_ms_spec() == frame_ms,
            s.chunk_ms_spec() == fixed_chunk_ms,
    {
        Passthrough { frame_ms, fixed_chunk_ms, speech_buffer: Vec::new(), speech_ms: 0 }
    }

    /// Duration of the audio collected so far, in milliseconds.
    pub fn speech_ms(&self) -> (r: u64)
        ensures
            r == self.collected_ms(),
    {
        self.speech_ms
    }

    /// Recording is off: the collected audio is discarded.
    pub fn reset(&mut self)
        ensures
            final(self).buffer() == Seq::<T>::empty(),
            final(self).collected_ms() == 0,
            final(self).frame_ms_spec() == old(self).frame_ms_spec(),
            final(self).chunk_ms_spec() == old(self).chunk_ms_spec(),
    {
        self.speech_buffer.clear();
        self.speech_ms = 0;
    }

    /// Processes one recorded frame; returns the chunk completed by it, if any.
    pub fn on_frame(&mut self, frame: Vec<T>) -> (out: Vec<Segment<T>>)
        requires
            old(self).collected_ms() + old(self).frame_ms_spec() <= u64::MAX,
        ensures
            final(self).frame_ms_spec() == old(self).frame_ms_spec(),
            final(self).chunk_ms_spec() == old(self).chunk_ms_spec(),
            ({
                let buf = old(self).buffer() + frame@;
                let ms = old(self).collected_ms() + old(self).frame_ms_spec();
                match old(self).chunk_ms_spec() {
                    Some(c) if ms >= c => {
                        &&& final(self).buffer() == Seq::<T>::empty()
                        &&& final(self).collected_ms() == 0
                        &&& out@.map_values(|g: Segment<T>| segment_view(g)) == flush(buf, ms)
                    },
                    _ => {
                        &&& final(self).buffer() == buf
                        &&& final(self).collected_ms() == ms
                        &&& out@.len() == 0
                    },
                }
            }),
    {
        let mut out: Vec<Segment<T>> = Vec::new();
        append_copy(&mut self.speech_buffer, &frame);
        self.speech_ms = self.speech_ms + self.frame_ms as u64;
        if let Some(chunk_ms) = self.fixed_chunk_ms {
            if self.speech_ms >= chunk_ms {
                if self.speech_buffer.len() > 0 {
                    let mut samples: Vec<T> = Vec::new();
            std::mem::swap(&mut samples, &mut self.speech_buffer);
                    out.push(Segment { samples, duration_ms: self.speech_ms });
                    assert(out@.map_values(|g: Segment<T>| segment_view(g)) == seq![
                        (samples@, self.speech_ms as int),
                    ]);
                } else {
                    assert(out@.map_values(|g: Segment<T>| segment_view(g)) == Seq::<
                        (Seq<T>, int),
                    >::empty());
                }
                self.speech_ms = 0;
            }
        }
        out
    }

    /// Takes one frame from the capture: while recording is off the frame is
    /// dropped and everything collected is discarded; while it is on the
    /// frame is processed as by [`Passthrough::on_frame`].
    pub fn feed(&mut self, recording: bool, frame: Vec<T>) -> (out: Vec<Segment<T>>)
        requires
            recording ==> old(self).collected_ms() + old(self).frame_ms_spec() <= u64::MAX,
        ensures
            final(self).frame_ms_spec() == old(self).frame_ms_spec(),
            final(self).chunk_ms_spec() == old(self).chunk_ms_spec(),
            ({
                let input = if recording {
                    Some(frame@)
                } else {
                    None
                };
                let (held, emitted) = pass_step(
                    old(self).frame_ms_spec(),
                    old(self).chunk_ms_spec(),
                    (old(self).buffer(), old(self).collected_ms()),
                    input,
                );
                &&& (final(self).buffer(), final(self).collected_ms()) == held
                &&& out@.map_values(|g: Segment<T>| segment_view(g)) == emitted
            }),
    {
        if recording {
            self.on_frame(frame)
        } else {
            self.reset();
            let out: Vec<Segment<T>> = Vec::new();
            assert(out@.map_values(|g: Segment<T>| segment_view(g)) =~= Seq::<(Seq<T>, int)>::empty());
            out
        }
    }
}

/// One recorded frame in the passthrough, from its collected samples and
/// their duration: the frame is appended and, once a chunk length is set and
/// reached, everything collected is emitted and the passthrough starts over.
pub open spec fn pass_frame<T>(
    frame_ms: u32,
    chunk: Option<u64>,
    collected: (Seq<T>, int),
    frame: Seq<T>,
) -> ((Seq<T>, int), Seq<(Seq<T>, int)>) {
    let buf = collected.0 + frame;
    let ms = collected.1 + frame_ms;
    match chunk {
        Some(c) if ms >= c => ((Seq::empty(), 0), flush(buf, ms)),
        _ => ((buf, ms), Seq::empty()),
    }
}

/// One input of the passthrough: `None` for a frame that arrived while
/// recording was off (it is dropped and everything collected is
/// discarded), or a recorded frame.
pub open spec fn pass_step<T>(
    frame_ms: u32,
    chunk: Option<u64>,
    collected: (Seq<T>, int),
    input: Option<Seq<T>>,
) -> ((Seq<T>, int), Seq<(Seq<T>, int)>) {
    match input {
        None => ((Seq::empty(), 0), Seq::empty()),
        Some(frame) => pass_frame(frame_ms, chunk, collected, frame),
    }
}

/// What the passthrough holds after a run of inputs from empty, and the
/// chunks emitted by the last input.
pub open spec fn pass_run<T>(frame_ms: u32, chunk: Option<u64>, inputs: Seq<Option<Seq<T>>>) -> (
    (Seq<T>, int),
    Seq<(Seq<T>, int)>,
)
    decreases inputs.len(),
{
    if inputs.len() == 0 {
        ((Seq::empty(), 0), Seq::empty())
    } else {
        pass_step(frame_ms, chunk, pass_run(frame_ms, chunk, inputs.drop_last()).0, inputs.last())
    }
}

/// The frames the passthrough received while recording since recording was
/// last off, in order.
pub open spec fn recorded_since_pause<T>(inputs: Seq<Option<Seq<T>>>) -> Seq<Seq<T>>
    decreases inputs.len(),
{
    if inputs.len() == 0 {
        Seq::empty()
    } else {
        match inputs.last() {
            None => Seq::empty(),
            Some(frame) => recorded_since_pause(inputs.drop_last()).push(frame),
        }
    }
}

/// Whatever the recording flag does while frames arrive: what the
/// passthrough holds is the samples of the last frames recorded since
/// recording was last off, every chunk it emits has samples and is made of
/// consecutive frames all recorded since then (so none holds a frame that
/// arrived while recording was off, or spans such a period), and without a
/// chunk length it never emits anything.
pub proof fn lemma_passthrough_stays_within_recording<T>(
    frame_ms: u32,
    chunk: Option<u64>,
    inputs: Seq<Option<Seq<T>>>,
)
    ensures
        ({
            let frames = recorded_since_pause(inputs);
            exists|a: int|
                0 <= a <= frames.len() && pass_run(frame_ms, chunk, inputs).0.0
                    == #[trigger] frames.subrange(a, frames.len() as int).flatten()
        }),
        forall|k: int|
            0 <= k < pass_run(frame_ms, chunk, inputs).1.len() ==> (#[trigger] pass_run(
                frame_ms,
                chunk,
                inputs,
            ).1[k]).0.len() > 0 && consecutive_frames(
                pass_run(frame_ms, chunk, inputs).1[k].0,
                recorded_since_pause(inputs),
            ),
        chunk is None ==> pass_run(frame_ms, chunk, inputs).1.len() == 0,
    decreases inputs.len(),
{
    broadcast use Seq::lemma_flatten_push;
    let frames = recorded_since_pause(inputs);
    let n = frames.len() as int;
    lemma_empty_tail(frames);
    if inputs.len() > 0 {
        let pre = inputs.drop_last();
        lemma_passthrough_stays_within_recording(frame_ms, chunk, pre);
        match inputs.last() {
            None => {},
            Some(frame) => {
                let f0 = recorded_since_pause(pre);
                let n0 = f0.len() as int;
                let held = pass_run(frame_ms, chunk, pre).0;
                let a = choose|a: int| 0 <= a <= n0 && held.0 == #[trigger] f0.subrange(a, n0).flatten();
                assert(frames == f0.push(frame));
                assert(frames.subrange(a, n) =~= f0.subrange(a, n0).push(frame));
                let buf = held.0 + frame;
                assert(buf == frames.subrange(a, n).flatten());
                let emitted = pass_run(frame_ms, chunk, inputs).1;
                assert forall|k: int| 0 <= k < emitted.len() implies (#[trigger] emitted[k]).0.len() > 0
                    && consecutive_frames(emitted[k].0, frames) by {
                    assert(emitted[k].0 == buf);
                    assert(0 <= a <= n <= frames.len() && buf == frames.subrange(a, n).flatten());
                }
            },
        }
    }
}

/// Whether the settings keep the segmenter's counters in range (checked
/// before a segmenter is made).
pub fn settings_within_limits(p: &SegmenterSettings) -> (r: bool)
    ensures
        r == settings_ok(*p),
{
    if p.prefill_frames == usize::MAX {
        return false;
    }
    let frames: u128 = p.prefill_frames as u128 + 1;
    assert(frames * (p.frame_ms as u128) <= 0x1_0000_0000_0000_0000 * 0xffff_ffff) by (nonlinear_arith)
        requires
            frames <= 0x1_0000_0000_0000_0000,
            p.frame_ms <= 0xffff_ffff,
    ;
    let window: u128 = frames * (p.frame_ms as u128);
    if window > u64::MAX as u128 {
        return false;
    }
    (p.max_speech_ms as u128) + (p.frame_ms as u128) <= (u64::MAX as u128) + 1
}

/// Whether a frame must be resampled before the voice detector sees it:
/// unless it is already one detector frame at the detector's rate.
pub fn needs_resampling(sample_rate: u32, frame_len: usize) -> (r: bool)
    ensures
        r == !(sample_rate == VAD_SAMPLE_RATE && frame_len == VAD_FRAME_SAMPLES),
{
    !(sample_rate == VAD_SAMPLE_RATE && frame_len == VAD_FRAME_SAMPLES)
}

/// A resampled frame cut or padded to one detector frame: its first
/// [`VAD_FRAME_SAMPLES`] samples, or all of them followed by `fill`.
pub open spec fn fitted_frame<T>(samples: Seq<T>, fill: T) -> Seq<T> {
    if samples.len() >= VAD_FRAME_SAMPLES {
        samples.take(VAD_FRAME_SAMPLES as int)
    } else {
        samples + Seq::new((VAD_FRAME_SAMPLES - samples.len()) as nat, |i: int| fill)
    }
}

/// Executable form of [`fitted_frame`].
pub fn fit_vad_frame<T: Copy>(samples: Vec<T>, fill: T) -> (r: Vec<T>)
    ensures
        r@ == fitted_frame(samples@, fill),
        r@.len() == VAD_FRAME_SAMPLES,
{
    let mut out = samples;
    if out.len() >= VAD_FRAME_SAMPLES {
        out.truncate(VAD_FRAME_SAMPLES);
        assert(out@ =~= fitted_frame(samples@, fill));
        return out;
    }
    let ghost start = out@;
    while out.len() < VAD_FRAME_SAMPLES
        invariant
            start.len() <= out@.len() <= VAD_FRAME_SAMPLES,
            out@.take(start.len() as int) == start,
            forall|k: int| start.len() <= k < out@.len() ==> out@[k] == fill,
        decreases VAD_FRAME_SAMPLES - out@.len(),
    {
        out.push(fill);
    }
    assert(out@ =~= fitted_frame(samples@, fill));
    out
}

/// What to do about the voice-detector model.
#[derive(Debug)]
pub enum VadModelStep {
    /// The model is there.
    Ready,
    /// Download it from this location.
    Download(String),
    /// It is missing and no download location is set.
    MissingUrl,
}

/// The model is used when it exists, else downloaded from its configured
/// location; without one the segmenter cannot start.
pub fn vad_model_step(exists: bool, url: &Option<String>) -> (r: VadModelStep)
    ensures
        exists ==> r is Ready,
        !exists ==> match url {
            Some(u) => r matches VadModelStep::Download(v) && v@ == u@,
            None => r is MissingUrl,
        },
{
    if exists {
        return VadModelStep::Ready;
    }
    match url {
        Some(u) => VadModelStep::Download(u.clone()),
        None => VadModelStep::MissingUrl,
    }
}

/// The error when the voice-detector model is missing and cannot be fetched.
pub const VAD_MODEL_MISSING: &'static str = "silero VAD model missing and model_url is not set";

/// One input of the segmenter: `None` for a frame that arrived while
/// recording was off (it is dropped and everything collected is
/// discarded), or a recorded frame with its voice decision.
pub open spec fn input_step<T>(p: SegmenterSettings, s: SegmenterState<T>, input: Option<(Seq<T>, bool)>) -> (
    SegmenterState<T>,
    Seq<(Seq<T>, int)>,
) {
    match input {
        None => (idle_state::<T>(), Seq::empty()),
        Some((frame, is_voice)) => frame_step(p, s, frame, is_voice),
    }
}

/// The segmenter's state after a run of inputs, from the idle state, and
/// the segments emitted by the last input.
pub open spec fn run_inputs<T>(p: SegmenterSettings, inputs: Seq<Option<(Seq<T>, bool)>>) -> (
    SegmenterState<T>,
    Seq<(Seq<T>, int)>,
)
    decreases inputs.len(),
{
    if inputs.len() == 0 {
        (idle_state::<T>(), Seq::empty())
    } else {
        input_step(p, run_inputs(p, inputs.drop_last()).0, inputs.last())
    }
}

/// The frames recorded since recording was last off, in order.
pub open spec fn frames_since_pause<T>(inputs: Seq<Option<(Seq<T>, bool)>>) -> Seq<Seq<T>>
    decreases inputs.len(),
{
    if inputs.len() == 0 {
        Seq::empty()
    } else {
        match inputs.last() {
            None => Seq::empty(),
            Some((frame, _)) => frames_since_pause(inputs.drop_last()).push(frame),
        }
    }
}

/// Whether `samples` are the samples of consecutive frames of `frames`.
pub open spec fn consecutive_frames<T>(samples: Seq<T>, frames: Seq<Seq<T>>) -> bool {
    exists|a: int, b: int| 0 <= a <= b <= frames.len() && samples == #[trigger] frames.subrange(a, b).flatten()
}

/// How a state relates to the frames recorded since the last pause: the
/// prefill window is their tail, and the collected samples are those of a
/// tail of them (none outside speech).
pub open spec fn tracks_frames<T>(p: SegmenterSettings, s: SegmenterState<T>, frames: Seq<Seq<T>>) -> bool {
    &&& s.prefill == crate::window::last_n(frames, p.prefill_frames + 1)
    &&& exists|a: int| 0 <= a <= frames.len() && s.buffer == #[trigger] frames.subrange(a, frames.len() as int).flatten()
    &&& !s.in_speech ==> s.buffer.len() == 0
}

proof fn lemma_empty_tail<T>(frames: Seq<Seq<T>>)
    ensures
        frames.subrange(frames.len() as int, frames.len() as int).flatten() == Seq::<T>::empty(),
{
    assert(frames.subrange(frames.len() as int, frames.len() as int) =~= Seq::<Seq<T>>::empty());
}

proof fn lemma_limit_tracks<T>(p: SegmenterSettings, s1: SegmenterState<T>, frames: Seq<Seq<T>>)
    requires
        tracks_frames(p, s1, frames),
    ensures
        tracks_frames(p, limit_step(p, s1).0, frames),
        forall|k: int|
            0 <= k < limit_step(p, s1).1.len() ==> (#[trigger] limit_step(p, s1).1[k]).0.len() > 0
                && consecutive_frames(limit_step(p, s1).1[k].0, frames),
{
    let n = frames.len() as int;
    lemma_empty_tail(frames);
    assert(Seq::<T>::empty() == frames.subrange(n, n).flatten());
    let a = choose|a: int| 0 <= a <= frames.len() && s1.buffer == #[trigger] frames.subrange(a, frames.len() as int).flatten();
    assert(consecutive_frames(s1.buffer, frames)) by {
        assert(0 <= a <= n <= frames.len() && s1.buffer == frames.subrange(a, n).flatten());
    }
    if s1.in_speech {
        let (t1, e1) = match p.fixed_chunk_ms {
            Some(c) => if s1.speech_ms >= c {
                (SegmenterState { buffer: Seq::empty(), speech_ms: 0, ..s1 }, flush(s1.buffer, s1.speech_ms))
            } else {
                (s1, Seq::empty())
            },
            None => (s1, Seq::empty()),
        };
        assert(tracks_frames(p, t1, frames)) by {
            if t1.buffer.len() == 0 {
                assert(t1.buffer == frames.subrange(n, n).flatten());
            }
        }
        assert(consecutive_frames(t1.buffer, frames)) by {
            if t1.buffer.len() == 0 {
                assert(t1.buffer == frames.subrange(n, n).flatten());
            }
        }
        let (s2, e) = limit_step(p, s1);
        assert forall|k: int| 0 <= k < e.len() implies (#[trigger] e[k]).0.len() > 0 && consecutive_frames(
            e[k].0,
            frames,
        ) by {
            if k < e1.len() {
                assert(e[k] == e1[k]);
            } else {
                assert(e[k] == flush(t1.buffer, t1.speech_ms)[k - e1.len()]);
            }
        }
        assert(tracks_frames(p, s2, frames)) by {
            if s2.buffer.len() == 0 {
                assert(s2.buffer == frames.subrange(n, n).flatten());
            }
        }
    }
}

/// One recorded frame keeps the relation between the state and the frames
/// since the last pause, and every segment it emits is made of consecutive
/// frames among them.
proof fn lemma_frame_tracks<T>(
    p: SegmenterSettings,
    s: SegmenterState<T>,
    frames: Seq<Seq<T>>,
    frame: Seq<T>,
    is_voice: bool,
)
    requires
        tracks_frames(p, s, frames),
    ensures
        tracks_frames(p, frame_step(p, s, frame, is_voice).0, frames.push(frame)),
        forall|k: int|
            0 <= k < frame_step(p, s, frame, is_voice).1.len() ==> (#[trigger] frame_step(
                p,
                s,
                frame,
                is_voice,
            ).1[k]).0.len() > 0 && consecutive_frames(frame_step(p, s, frame, is_voice).1[k].0, frames.push(frame)),
{
    broadcast use Seq::lemma_flatten_push;
    let f2 = frames.push(frame);
    let n = frames.len() as int;
    let n2 = f2.len() as int;
    let cap = p.prefill_frames + 1;
    crate::window::lemma_last_n_push(frames, frame, cap as int);
    let prefill = next_prefill(p, s.prefill, frame);
    assert(prefill == crate::window::last_n(f2, cap as int));
    crate::window::lemma_last_n_is_tail(f2, cap as int);
    lemma_empty_tail(f2);
    let a = choose|a: int| 0 <= a <= frames.len() && s.buffer == #[trigger] frames.subrange(a, frames.len() as int).flatten();
    assert(f2.subrange(a, n) =~= frames.subrange(a, n));
    assert(f2.subrange(a, n2) =~= frames.subrange(a, n).push(frame));
    let (s1, e1) = classify_step(p, s, frame, is_voice, prefill);
    assert(tracks_frames(p, s1, f2) && forall|k: int| 0 <= k < e1.len() ==> (#[trigger] e1[k]).0.len() > 0
        && consecutive_frames(e1[k].0, f2)) by {
        if !s.in_speech && is_voice {
            if s.onset + 1 >= p.onset_frames {
                let m = prefill.len() as int;
                assert(s.buffer =~= Seq::<T>::empty());
                assert(s1.buffer =~= f2.subrange(n2 - m, n2).flatten());
            } else {
                assert(s1.buffer == f2.subrange(n2, n2).flatten());
            }
        } else if s.in_speech && is_voice {
            assert(s1.buffer == f2.subrange(a, n2).flatten());
        } else if s.in_speech && !is_voice {
            if s.hangover > 0 {
                assert(s1.buffer == f2.subrange(a, n2).flatten());
            } else {
                assert(s1.buffer == f2.subrange(n2, n2).flatten());
                assert forall|k: int| 0 <= k < e1.len() implies (#[trigger] e1[k]).0.len() > 0 && consecutive_frames(
                    e1[k].0,
                    f2,
                ) by {
                    assert(e1[k].0 == s.buffer);
                    assert(0 <= a <= n <= f2.len() && s.buffer == f2.subrange(a, n).flatten());
                }
            }
        } else {
            assert(s1.buffer == f2.subrange(n2, n2).flatten());
        }
    }
    lemma_limit_tracks(p, s1, f2);
    let (s2, e2) = limit_step(p, s1);
    let e = frame_step(p, s, frame, is_voice).1;
    assert(e == e1 + e2);
    assert forall|k: int| 0 <= k < e.len() implies (#[trigger] e[k]).0.len() > 0 && consecutive_frames(e[k].0, f2) by {
        if k < e1.len() {
            assert(e[k] == e1[k]);
        } else {
            assert(e[k] == e2[k - e1.len()]);
        }
    }
}

/// Whatever the recording flag does while frames arrive: every segment
/// emitted has samples, and they are the samples of consecutive frames all
/// recorded since recording was last switched off, so no segment holds a
/// frame that arrived while recording was off, and none spans such a
/// period.
pub proof fn lemma_segments_stay_within_recording<T>(
    p: SegmenterSettings,
    inputs: Seq<Option<(Seq<T>, bool)>>,
)
    ensures
        tracks_frames(p, run_inputs(p, inputs).0, frames_since_pause(inputs)),
        forall|k: int|
            0 <= k < run_inputs(p, inputs).1.len() ==> (#[trigger] run_inputs(p, inputs).1[k]).0.len() > 0
                && consecutive_frames(run_inputs(p, inputs).1[k].0, frames_since_pause(inputs)),
    decreases inputs.len(),
{
    let idle = idle_state::<T>();
    let empty = Seq::<Seq<T>>::empty();
    assert(tracks_frames(p, idle, empty)) by {
        lemma_empty_tail(empty);
        assert(crate::window::last_n(empty, p.prefill_frames + 1) =~= empty);
    }
    if inputs.len() > 0 {
        lemma_segments_stay_within_recording(p, inputs.drop_last());
        match inputs.last() {
            None => {},
            Some((frame, is_voice)) => {
                lemma_frame_tracks(p, run_inputs(p, inputs.drop_last()).0, frames_since_pause(inputs.drop_last()), frame, is_voice);
            },
        }
    }
}

impl<T: Copy> Segmenter<T> {
    /// Takes one frame from the capture: while recording is off the frame is
    /// dropped and everything collected is discarded (`is_voice` is not
    /// looked at); while it is on the frame is processed as by
    /// [`Segmenter::on_frame`].
    pub fn feed(&mut self, recording: bool, frame: Vec<T>, is_voice: bool) -> (out: Vec<Segment<T>>)
        requires
            old(self).wf(),
        ensures
            final(self).wf(),
            final(self).settings_spec() == old(self).settings_spec(),
            ({
                let input = if recording {
                    Some((frame@, is_voice))
                } else {
                    None
                };
                let (s2, emitted) = input_step(old(self).settings_spec(), old(self).state(), input);
                &&& final(self).state() == s2
                &&& out@.map_values(|g: Segment<T>| segment_view(g)) == emitted
            }),
    {
        if recording {
            self.on_frame(frame, is_voice)
        } else {
            self.reset();
            let out: Vec<Segment<T>> = Vec::new();
            assert(out@.map_values(|g: Segment<T>| segment_view(g)) =~= Seq::<(Seq<T>, int)>::empty());
            out
        }
    }
}

} // verus!
