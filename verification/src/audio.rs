//! Audio capture decisions: the capture settings, the frame size, which
//! input device to open, and how interleaved samples are cut into frames.
use vstd::prelude::*;
use crate::dirs::opt_str_view;
use crate::hooks::strings_view;
use crate::text::{chars_contain, chars_of, contains, to_lowercase, trim, trim_str, unicode_lowercase, str_equal};
use crate::vad::frames_view;

verus! {

/// Capture settings.
#[derive(Debug, Clone)]
pub struct AudioConfig {
    pub frame_ms: u32,
    pub input_device: Option<String>,
}

/// What the opened input stream delivers.
#[derive(Debug, Clone, Copy)]
pub struct AudioInfo {
    pub sample_rate: u32,
    pub channels: u16,
}

/// Samples per frame: `sample_rate * frame_ms / 1000` (the product
/// saturating at `usize::MAX`), and at least one.
pub open spec fn frame_size_for(sample_rate: u32, frame_ms: u32) -> int {
    let product = sample_rate as int * frame_ms as int;
    let saturated = if product > usize::MAX { usize::MAX as int } else { product };
    if saturated / 1000 < 1 { 1 } else { saturated / 1000 }
}

/// Executable form of [`frame_size_for`].
pub fn frame_size(sample_rate: u32, frame_ms: u32) -> (r: usize)
    ensures
        r == frame_size_for(sample_rate, frame_ms),
{
    assert(sample_rate as int * frame_ms as int <= 0xffff_ffff * 0xffff_ffff) by (nonlinear_arith)
        requires
            0 <= sample_rate <= 0xffff_ffff,
            0 <= frame_ms <= 0xffff_ffff,
    ;
    let product: u64 = (sample_rate as u64) * (frame_ms as u64);
    let saturated: usize = if product > usize::MAX as u64 { usize::MAX } else { product as usize };
    let size = saturated / 1000;
    if size < 1 { 1 } else { size }
}

/// Which input device to open.
#[derive(Debug, Clone, Copy, PartialEq, Eq, Structural)]
pub enum DeviceChoice {
    /// The host's default input device.
    Default,
    /// The device at this index, whose name is the wanted one.
    Exact(usize),
    /// The device at this index, whose lower-cased name contains the
    /// lower-cased wanted one.
    Partial(usize),
}

/// The wanted device name: the configured one, trimmed, unless it is empty.
pub open spec fn wanted_device(preferred: Option<Seq<char>>) -> Option<Seq<char>> {
    match preferred {
        Some(p) => if trim(p).len() > 0 { Some(trim(p)) } else { None },
        None => None,
    }
}

/// Whether `i` is the first index of a device named `w`.
pub open spec fn first_exact(names: Seq<Seq<char>>, w: Seq<char>, i: int) -> bool {
    0 <= i < names.len() && names[i] == w && forall|j: int| 0 <= j < i ==> #[trigger] names[j] != w
}

/// Whether `i` is the first index of a lower-cased name containing `lw`.
pub open spec fn first_partial(lowered: Seq<Seq<char>>, lw: Seq<char>, i: int) -> bool {
    0 <= i < lowered.len() && contains(lowered[i], lw) && forall|j: int|
        0 <= j < i ==> !contains(#[trigger] lowered[j], lw)
}

/// The device picked among `names` (with their lower-cased forms `lowered`)
/// for the wanted name `w` (lower-cased `lw`): the first device named `w`;
/// else the first whose lower-cased name contains `lw`; else the default.
pub open spec fn pick_device(
    names: Seq<Seq<char>>,
    lowered: Seq<Seq<char>>,
    w: Seq<char>,
    lw: Seq<char>,
) -> DeviceChoice {
    if exists|i: int| 0 <= i < names.len() && #[trigger] names[i] == w {
        DeviceChoice::Exact((choose|i: int| first_exact(names, w, i)) as usize)
    } else if exists|i: int| 0 <= i < lowered.len() && contains(#[trigger] lowered[i], lw) {
        DeviceChoice::Partial((choose|i: int| first_partial(lowered, lw, i)) as usize)
    } else {
        DeviceChoice::Default
    }
}

/// The device opened for the configured name `preferred`, among the input
/// devices called `names` (in the host's order).
pub open spec fn device_choice(names: Seq<Seq<char>>, preferred: Option<Seq<char>>) -> DeviceChoice {
    match wanted_device(preferred) {
        None => DeviceChoice::Default,
        Some(w) => pick_device(names, names.map_values(|n: Seq<char>| unicode_lowercase(n)), w, unicode_lowercase(w)),
    }
}

/// Picks a device, given the names, their lower-cased forms, the wanted
/// name and its lower-cased form.
pub fn pick_input_device(names: &Vec<String>, lowered: &Vec<String>, wanted: &str, wanted_lowered: &str) -> (r:
    DeviceChoice)
    requires
        names@.len() == lowered@.len(),
    ensures
        r == pick_device(strings_view(names@), strings_view(lowered@), wanted@, wanted_lowered@),
{
    let ghost ns = strings_view(names@);
    let ghost ls = strings_view(lowered@);
    let lw = chars_of(wanted_lowered);
    let mut found_partial: Option<usize> = None;
    let mut i: usize = 0;
    while i < names.len()
        invariant
            ns == strings_view(names@),
            ls == strings_view(lowered@),
            names@.len() == lowered@.len(),
            lw@ == wanted_lowered@,
            i <= names@.len(),
            forall|k: int| 0 <= k < i ==> #[trigger] ns[k] != wanted@,
            match found_partial {
                Some(p) => first_partial(ls, wanted_lowered@, p as int),
                None => forall|k: int| 0 <= k < i ==> !contains(#[trigger] ls[k], wanted_lowered@),
            },
        decreases names@.len() - i,
    {
        if str_equal(names[i].as_str(), wanted) {
            assert(ns[i as int] == wanted@);
            assert(first_exact(ns, wanted@, i as int));
            let ghost c = choose|k: int| first_exact(ns, wanted@, k);
            assert(c == i as int) by {
                if c < i as int {
                    assert(ns[c] != wanted@);
                } else if c > i as int {
                    assert(ns[i as int] != wanted@);
                }
            }
            return DeviceChoice::Exact(i);
        }
        if found_partial.is_none() {
            let v = chars_of(lowered[i].as_str());
            if chars_contain(&v, &lw) {
                assert(contains(ls[i as int], wanted_lowered@));
                found_partial = Some(i);
            }
        }
        i = i + 1;
    }
    assert(!(exists|k: int| 0 <= k < ns.len() && #[trigger] ns[k] == wanted@));
    match found_partial {
        Some(p) => {
            assert(contains(ls[p as int], wanted_lowered@));
            let ghost c = choose|k: int| first_partial(ls, wanted_lowered@, k);
            assert(c == p as int) by {
                if c < p as int {
                    assert(!contains(ls[c], wanted_lowered@));
                } else if c > p as int {
                    assert(!contains(ls[p as int], wanted_lowered@));
                }
            }
            DeviceChoice::Partial(p)
        },
        None => {
            assert(!(exists|k: int| 0 <= k < ls.len() && contains(#[trigger] ls[k], wanted_lowered@)));
            DeviceChoice::Default
        },
    }
}

/// Picks the input device for the configured name `preferred` among the
/// devices called `names`.
pub fn choose_input_device(names: &Vec<String>, preferred: Option<&str>) -> (r: DeviceChoice)
    ensures
        r == device_choice(strings_view(names@), opt_str_view(preferred)),
{
    let p = match preferred {
        Some(p) => p,
        None => return DeviceChoice::Default,
    };
    let wanted = trim_str(p);
    if chars_of(wanted.as_str()).len() == 0 {
        return DeviceChoice::Default;
    }
    let mut lowered: Vec<String> = Vec::new();
    for i in 0..names.len()
        invariant
            lowered@.len() == i,
            forall|k: int| 0 <= k < i ==> (#[trigger] lowered@[k])@ == unicode_lowercase(names@[k]@),
    {
        lowered.push(to_lowercase(names[i].as_str()));
    }
    let wl = to_lowercase(wanted.as_str());
    proof {
        assert(strings_view(lowered@) =~= strings_view(names@).map_values(
            |n: Seq<char>| unicode_lowercase(n),
        ));
    }
    pick_input_device(names, &lowered, wanted.as_str(), wl.as_str())
}

proof fn lemma_first_exact_exists(names: Seq<Seq<char>>, w: Seq<char>)
    requires
        exists|i: int| 0 <= i < names.len() && #[trigger] names[i] == w,
    ensures
        exists|i: int| first_exact(names, w, i),
    decreases names.len(),
{
    let t = names.drop_last();
    if exists|i: int| 0 <= i < t.len() && #[trigger] t[i] == w {
        lemma_first_exact_exists(t, w);
        let i = choose|i: int| first_exact(t, w, i);
        assert forall|j: int| 0 <= j < i implies #[trigger] names[j] != w by {
            assert(t[j] == names[j]);
        }
        assert(t[i] == names[i]);
        assert(first_exact(names, w, i));
    } else {
        let k = names.len() - 1;
        assert(names[k] == w) by {
            let j = choose|j: int| 0 <= j < names.len() && #[trigger] names[j] == w;
            if j < k {
                assert(t[j] == names[j]);
            }
        }
        assert forall|j: int| 0 <= j < k implies #[trigger] names[j] != w by {
            assert(t[j] == names[j]);
        }
        assert(first_exact(names, w, k));
    }
}

proof fn lemma_first_partial_exists(lowered: Seq<Seq<char>>, lw: Seq<char>)
    requires
        exists|i: int| 0 <= i < lowered.len() && contains(#[trigger] lowered[i], lw),
    ensures
        exists|i: int| first_partial(lowered, lw, i),
    decreases lowered.len(),
{
    let t = lowered.drop_last();
    if exists|i: int| 0 <= i < t.len() && contains(#[trigger] t[i], lw) {
        lemma_first_partial_exists(t, lw);
        let i = choose|i: int| first_partial(t, lw, i);
        assert forall|j: int| 0 <= j < i implies !contains(#[trigger] lowered[j], lw) by {
            assert(t[j] == lowered[j]);
        }
        assert(t[i] == lowered[i]);
        assert(first_partial(lowered, lw, i));
    } else {
        let k = lowered.len() - 1;
        assert(contains(lowered[k], lw)) by {
            let j = choose|j: int| 0 <= j < lowered.len() && contains(#[trigger] lowered[j], lw);
            if j < k {
                assert(t[j] == lowered[j]);
            }
        }
        assert forall|j: int| 0 <= j < k implies !contains(#[trigger] lowered[j], lw) by {
            assert(t[j] == lowered[j]);
        }
        assert(first_partial(lowered, lw, k));
    }
}

/// The device picked is the first one named exactly as wanted; only when
/// none is, the first whose lower-cased name contains the lower-cased
/// wanted name; and the default device only when neither exists (or no
/// name is wanted).
pub proof fn lemma_device_choice_prefers_exact(names: Seq<Seq<char>>, preferred: Option<Seq<char>>)
    requires
        names.len() <= usize::MAX,
    ensures
        ({
            let lowered = names.map_values(|n: Seq<char>| unicode_lowercase(n));
            match device_choice(names, preferred) {
                DeviceChoice::Exact(i) => wanted_device(preferred) matches Some(w) && i < names.len()
                    && names[i as int] == w && forall|j: int| 0 <= j < i ==> names[j] != w,
                DeviceChoice::Partial(i) => wanted_device(preferred) matches Some(w) && i < names.len()
                    && contains(lowered[i as int], unicode_lowercase(w)) && (forall|j: int|
                    0 <= j < names.len() ==> names[j] != w) && forall|j: int|
                    0 <= j < i ==> !contains(lowered[j], unicode_lowercase(w)),
                DeviceChoice::Default => wanted_device(preferred) matches Some(w) ==> (forall|j: int|
                    0 <= j < names.len() ==> names[j] != w && !contains(lowered[j], unicode_lowercase(w))),
            }
        }),
{
    let lowered = names.map_values(|n: Seq<char>| unicode_lowercase(n));
    if let Some(w) = wanted_device(preferred) {
        let lw = unicode_lowercase(w);
        if exists|i: int| 0 <= i < names.len() && #[trigger] names[i] == w {
            lemma_first_exact_exists(names, w);
            let i = choose|i: int| first_exact(names, w, i);
            assert(first_exact(names, w, i));
        } else if exists|i: int| 0 <= i < lowered.len() && contains(#[trigger] lowered[i], lw) {
            lemma_first_partial_exists(lowered, lw);
            let i = choose|i: int| first_partial(lowered, lw, i);
            assert(first_partial(lowered, lw, i));
        } else {
            assert forall|j: int| 0 <= j < names.len() implies names[j] != w && !contains(
                lowered[j],
                lw,
            ) by {
                if names[j] == w {
                    assert(0 <= j < names.len() && names[j] == w);
                }
                if contains(lowered[j], lw) {
                    assert(0 <= j < lowered.len() && contains(lowered[j], lw));
                }
            }
        }
    }
}

/// The first sample of each frame of `channels` interleaved samples (the
/// last frame may be short).
pub open spec fn first_samples<T>(data: Seq<T>, channels: nat) -> Seq<T>
    decreases data.len(),
    when channels > 0
{
    if data.len() == 0 {
        Seq::empty()
    } else if data.len() <= channels {
        seq![data[0]]
    } else {
        seq![data[0]] + first_samples(data.skip(channels as int), channels)
    }
}

/// Feeds `samples` one by one into `buffer`, cutting a frame of
/// `frame_size` samples off its front whenever it holds that many; the
/// frames are appended to `frames`.  The result is the frames and what is
/// left in the buffer.
pub open spec fn emit_frames<T>(frames: Seq<Seq<T>>, buffer: Seq<T>, samples: Seq<T>, frame_size: nat) -> (
    Seq<Seq<T>>,
    Seq<T>,
)
    decreases samples.len(),
{
    if samples.len() == 0 {
        (frames, buffer)
    } else {
        let b = buffer.push(samples[0]);
        if b.len() >= frame_size {
            emit_frames(frames.push(b.take(frame_size as int)), b.skip(frame_size as int), samples.drop_first(), frame_size)
        } else {
            emit_frames(frames, b, samples.drop_first(), frame_size)
        }
    }
}

fn first_samples_of<T: Copy>(data: &[T], channels: usize) -> (r: Vec<T>)
    requires
        channels > 0,
    ensures
        r@ == first_samples(data@, channels as nat),
{
    let mut r: Vec<T> = Vec::new();
    let mut i: usize = 0;
    assert(data@.skip(0) =~= data@);
    while i < data.len()
        invariant
            channels > 0,
            i <= data@.len(),
            r@ + first_samples(data@.skip(i as int), channels as nat) == first_samples(data@, channels as nat),
        decreases data@.len() - i,
    {
        let ghost rest = data@.skip(i as int);
        r.push(data[i]);
        if data.len() - i <= channels {
            assert(first_samples(rest, channels as nat) == seq![data@[i as int]]);
            assert(data@.skip(data@.len() as int) =~= Seq::<T>::empty());
            i = data.len();
        } else {
            assert(rest.skip(channels as int) =~= data@.skip(i + channels));
            assert(first_samples(rest, channels as nat) == seq![data@[i as int]] + first_samples(
                data@.skip(i + channels),
                channels as nat,
            ));
            assert(r@ + first_samples(data@.skip(i + channels), channels as nat) =~= r@.drop_last() + (
            seq![data@[i as int]] + first_samples(data@.skip(i + channels), channels as nat)));
            i = i + channels;
        }
    }
    assert(data@.skip(i as int) =~= Seq::<T>::empty());
    assert(r@ + Seq::<T>::empty() =~= r@);
    r
}

/// Takes the first sample of each frame of `channels` interleaved samples
/// in `data` into `buffer`, and returns the full frames of `frame_size`
/// samples cut off its front, in order; what is left stays in `buffer`.
pub fn push_frames<T: Copy>(data: &[T], channels: usize, frame_size: usize, buffer: &mut Vec<T>) -> (frames:
    Vec<Vec<T>>)
    requires
        channels > 0,
    ensures
        (frames_view(frames@), final(buffer)@) == emit_frames(
            Seq::empty(),
            old(buffer)@,
            first_samples(data@, channels as nat),
            frame_size as nat,
        ),
{
    let firsts = first_samples_of(data, channels);
    let ghost all = firsts@;
    let ghost start = old(buffer)@;
    let mut frames: Vec<Vec<T>> = Vec::new();
    let mut i: usize = 0;
    assert(all.skip(0) =~= all);
    assert(frames_view(frames@) =~= Seq::<Seq<T>>::empty());
    while i < firsts.len()
        invariant
            all == firsts@,
            i <= all.len(),
            emit_frames(Seq::empty(), start, all, frame_size as nat) == emit_frames(
                frames_view(frames@),
                buffer@,
                all.skip(i as int),
                frame_size as nat,
            ),
        decreases all.len() - i,
    {
        let ghost rest = all.skip(i as int);
        let ghost fv = frames_view(frames@);
        let ghost before = buffer@;
        assert(rest[0] == all[i as int]);
        assert(rest.drop_first() =~= all.skip(i + 1));
        buffer.push(firsts[i]);
        let ghost b = buffer@;
        assert(b == before.push(rest[0]));
        if buffer.len() >= frame_size {
            let mut cut = buffer.split_off(frame_size);
            std::mem::swap(buffer, &mut cut);
            assert(cut@ =~= b.take(frame_size as int));
            assert(buffer@ =~= b.skip(frame_size as int));
            frames.push(cut);
            assert(frames_view(frames@) =~= fv.push(b.take(frame_size as int)));
            assert(emit_frames(fv, before, rest, frame_size as nat) == emit_frames(
                fv.push(b.take(frame_size as int)),
                b.skip(frame_size as int),
                rest.drop_first(),
                frame_size as nat,
            ));
        } else {
            assert(emit_frames(fv, before, rest, frame_size as nat) == emit_frames(
                fv,
                b,
                rest.drop_first(),
                frame_size as nat,
            ));
        }
        i = i + 1;
    }
    assert(all.skip(i as int) =~= Seq::<T>::empty());
    frames
}

/// Feeding samples never loses, duplicates or reorders one: the frames
/// cut, followed by what is left in the buffer, are the earlier frames and
/// buffer followed by the samples; every frame cut has `frame_size`
/// samples; and a buffer shorter than a frame stays so.
pub proof fn lemma_frames_keep_every_sample<T>(
    frames: Seq<Seq<T>>,
    buffer: Seq<T>,
    samples: Seq<T>,
    frame_size: nat,
)
    ensures
        ({
            let (f, r) = emit_frames(frames, buffer, samples, frame_size);
            &&& f.flatten() + r == frames.flatten() + buffer + samples
            &&& f.len() >= frames.len()
            &&& f.take(frames.len() as int) == frames
            &&& forall|k: int| frames.len() <= k < f.len() ==> (#[trigger] f[k]).len() == frame_size
            &&& buffer.len() < frame_size ==> r.len() < frame_size
        }),
    decreases samples.len(),
{
    broadcast use Seq::lemma_flatten_push;
    if samples.len() == 0 {
        assert(frames.take(frames.len() as int) =~= frames);
        assert(buffer + samples =~= buffer);
    } else {
        let b = buffer.push(samples[0]);
        if b.len() >= frame_size {
            let nf = frames.push(b.take(frame_size as int));
            lemma_frames_keep_every_sample(nf, b.skip(frame_size as int), samples.drop_first(), frame_size);
            let (f, r) = emit_frames(nf, b.skip(frame_size as int), samples.drop_first(), frame_size);
            assert(nf.flatten() == frames.flatten() + b.take(frame_size as int));
            assert(b.take(frame_size as int) + b.skip(frame_size as int) =~= b);
            assert(frames.flatten() + b.take(frame_size as int) + b.skip(frame_size as int)
                + samples.drop_first() =~= frames.flatten() + buffer + samples);
            assert(f.take(frames.len() as int) =~= f.take(nf.len() as int).take(frames.len() as int));
            assert(nf.take(frames.len() as int) =~= frames);
            assert(f[frames.len() as int] == nf[frames.len() as int]);
        } else {
            lemma_frames_keep_every_sample(frames, b, samples.drop_first(), frame_size);
            assert(frames.flatten() + b + samples.drop_first() =~= frames.flatten() + buffer + samples);
        }
    }
}

} // verus!
