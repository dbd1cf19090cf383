//! Frame numbering: the frame indices of a burst, the bursts of a run, and
//! the frames whose image could not be saved.
use crate::fractal::Fractal;
use rayon::iter::{IndexedParallelIterator, IntoParallelRefIterator, ParallelIterator};
use vstd::prelude::*;

verus! {

/// The frame numbers `first, first + 1, ..., last - 1` (empty when `last <= first`).
pub open spec fn frame_range(first: int, last: int) -> Seq<int> {
    Seq::new(if last > first { (last - first) as nat } else { 0 }, |i: int| first + i)
}

/// First frame number of burst `burst` when each burst holds `chunk_size` frames.
pub open spec fn burst_start(burst: int, chunk_size: int) -> int {
    burst * chunk_size
}

/// The frame numbers of bursts `0..bursts`, burst after burst.
pub open spec fn burst_schedule(bursts: nat, chunk_size: nat) -> Seq<int>
    decreases bursts,
{
    if bursts == 0 {
        Seq::empty()
    } else {
        let b = (bursts - 1) as nat;
        burst_schedule(b, chunk_size) + frame_range(
            burst_start(b as int, chunk_size as int),
            burst_start(b as int, chunk_size as int) + chunk_size,
        )
    }
}

/// The frame indices `first..last`, in increasing order: position `i` holds
/// frame `first + i`.
pub fn frame_indices(first: u16, last: u16) -> (r: Vec<u16>)
    ensures
        r@.len() == frame_range(first as int, last as int).len(),
        forall|i: int| 0 <= i < r@.len() ==> #[trigger] r@[i] as int == first + i,
{
    let mut r: Vec<u16> = Vec::new();
    if last <= first {
        return r;
    }
    let mut n: u16 = first;
    while n < last
        invariant
            first <= n <= last,
            r@.len() == n - first,
            forall|i: int| 0 <= i < r@.len() ==> #[trigger] r@[i] as int == first + i,
        decreases last - n,
    {
        r.push(n);
        n = n + 1;
    }
    r
}

/// The frame range `(first, last)` of burst `burst`: `first = burst · chunk_size`,
/// `last = first + chunk_size`. `None` when `last` does not fit a frame number.
pub fn burst_bounds(burst: u16, chunk_size: u16) -> (r: Option<(u16, u16)>)
    ensures
        r.is_some() <==> burst_start(burst as int, chunk_size as int) + chunk_size <= u16::MAX,
        r matches Some((first, last)) ==> first == burst_start(burst as int, chunk_size as int)
            && last == first + chunk_size,
{
    assert(burst as int * chunk_size as int <= u16::MAX * u16::MAX) by (nonlinear_arith)
        requires
            burst <= u16::MAX,
            chunk_size <= u16::MAX,
    ;
    let first: u64 = burst as u64 * chunk_size as u64;
    let last: u64 = first + chunk_size as u64;
    if last <= u16::MAX as u64 {
        Some((first as u16, last as u16))
    } else {
        None
    }
}

/// Frame numbers, in order, of the positions `i` where `saved[i]` is false,
/// position `i` standing for frame `first + i`.
pub open spec fn failed_frames(first: int, saved: Seq<bool>) -> Seq<int>
    decreases saved.len(),
{
    if saved.len() == 0 {
        Seq::empty()
    } else {
        let rest = failed_frames(first, saved.drop_last());
        if saved.last() {
            rest
        } else {
            rest.push(first + saved.len() - 1)
        }
    }
}

/// The frames of a burst starting at `first_frame` whose image was not saved:
/// `saved[i]` reports the outcome for frame `first_frame + i`.
pub fn failed_frame_numbers(first_frame: u16, saved: &Vec<bool>) -> (r: Vec<u16>)
    requires
        first_frame + saved@.len() <= u16::MAX + 1,
    ensures
        r@.len() == failed_frames(first_frame as int, saved@).len(),
        forall|i: int| 0 <= i < r@.len() ==> #[trigger] r@[i] as int == failed_frames(first_frame as int, saved@)[i],
{
    let mut r: Vec<u16> = Vec::new();
    let mut i: usize = 0;
    while i < saved.len()
        invariant
            i <= saved@.len(),
            first_frame + saved@.len() <= u16::MAX + 1,
            r@.len() == failed_frames(first_frame as int, saved@.take(i as int)).len(),
            forall|k: int| 0 <= k < r@.len() ==> #[trigger] r@[k] as int == failed_frames(first_frame as int, saved@.take(i as int))[k],
        decreases saved@.len() - i,
    {
        assert(saved@.take(i + 1).drop_last() =~= saved@.take(i as int));
        if !saved[i] {
            r.push(first_frame + i as u16);
        }
        i = i + 1;
    }
    assert(saved@.take(i as int) =~= saved@);
    r
}

/// Running bursts `0..bursts` of `chunk_size` frames each visits exactly the
/// frames `0..bursts · chunk_size`, each once, in increasing order.
pub proof fn lemma_bursts_cover_frames(bursts: nat, chunk_size: nat)
    ensures
        burst_schedule(bursts, chunk_size) =~= frame_range(0, (bursts * chunk_size) as int),
    decreases bursts,
{
    if bursts > 0 {
        let b = (bursts - 1) as nat;
        lemma_bursts_cover_frames(b, chunk_size);
        assert(bursts * chunk_size == b * chunk_size + chunk_size) by (nonlinear_arith)
            requires
                b == bursts - 1,
        ;
        let lo: int = (b * chunk_size) as int;
        assert(burst_start(b as int, chunk_size as int) == lo);
        assert(frame_range(0, lo) + frame_range(lo, lo + chunk_size as int) =~= frame_range(0, lo + chunk_size as int));
        assert(burst_schedule(bursts, chunk_size) == burst_schedule(b, chunk_size) + frame_range(lo, lo + chunk_size as int));
    } else {
        assert(bursts * chunk_size == 0) by (nonlinear_arith)
            requires
                bursts == 0,
        ;
    }
}

/// Relies on rayon's `par_iter().map(..).collect()` over a `Vec`: the frames are
/// built in parallel, and the collected `Vec` holds at position `i` what
/// `build` returned for `frames[i]`, whatever order the workers finished in.
#[verifier::external_body]
fn par_map_frames<F: Fn(u16) -> Fractal + Sync + Send>(frames: &Vec<u16>, build: &F) -> (r: Vec<Fractal>)
    requires
        forall|i: int| 0 <= i < frames@.len() ==> build.requires((#[trigger] frames@[i],)),
    ensures
        r@.len() == frames@.len(),
        forall|i: int| 0 <= i < frames@.len() ==> build.ensures((frames@[i],), #[trigger] r@[i]),
{
    frames.par_iter().map(|n| build(*n)).collect()
}

/// Builds the frame of each index in `frames`, in parallel: position `i` of the
/// result is the frame built for `frames[i]`.
pub fn map_frames_to_fractals<F: Fn(u16) -> Fractal + Sync + Send>(frames: &Vec<u16>, build: &F) -> (r: Vec<Fractal>)
    requires
        forall|n: u16| build.requires((n,)),
    ensures
        r@.len() == frames@.len(),
        forall|i: int| 0 <= i < frames@.len() ==> build.ensures((frames@[i],), #[trigger] r@[i]),
{
    par_map_frames(frames, build)
}

/// The frames `first_frame..last_frame`, built in parallel: position `i` of the
/// result is the frame built for frame index `first_frame + i`.
pub fn generate_frames<F: Fn(u16) -> Fractal + Sync + Send>(first_frame: u16, last_frame: u16, build: &F) -> (r: Vec<Fractal>)
    requires
        forall|n: u16| build.requires((n,)),
    ensures
        r@.len() == frame_range(first_frame as int, last_frame as int).len(),
        forall|i: int| 0 <= i < r@.len() ==> build.ensures(((first_frame + i) as u16,), #[trigger] r@[i]),
{
    let frames = frame_indices(first_frame, last_frame);
    let r = map_frames_to_fractals(&frames, build);
    assert forall|i: int| 0 <= i < r@.len() implies build.ensures(((first_frame + i) as u16,), #[trigger] r@[i]) by {
        assert(frames@[i] == (first_frame + i) as u16);
    }
    r
}

/// Relies on rayon's `par_iter().zip(..).map(..).collect()` over two `Vec`s of
/// equal length: `save` runs in parallel on each pair, and the collected `Vec`
/// holds at position `i` what `save` returned for `(numbers[i], frames[i])`.
#[verifier::external_body]
fn par_save_frames<S: Fn(u16, &Fractal) -> bool + Sync + Send>(numbers: &Vec<u16>, frames: &Vec<Fractal>, save: &S) -> (r: Vec<bool>)
    requires
        numbers@.len() == frames@.len(),
        forall|i: int| 0 <= i < frames@.len() ==> save.requires((#[trigger] numbers@[i], &frames@[i])),
    ensures
        r@.len() == frames@.len(),
        forall|i: int| 0 <= i < frames@.len() ==> save.ensures((numbers@[i], &frames@[i]), #[trigger] r@[i]),
{
    numbers.par_iter().zip(frames.par_iter()).map(|(n, f)| save(*n, f)).collect()
}

/// Hands each grid to `save` in parallel, position `i` as frame
/// `first_frame + i`, and keeps going past failures: the result lists, in
/// order, the frames for which `save` reported failure (returned false).
pub fn persist_frames<S: Fn(u16, &Fractal) -> bool + Sync + Send>(first_frame: u16, frames: &Vec<Fractal>, save: &S) -> (r: Vec<u16>)
    requires
        first_frame + frames@.len() <= u16::MAX + 1,
        forall|n: u16, f: &Fractal| save.requires((n, f)),
    ensures
        exists|saved: Seq<bool>|
            #![trigger failed_frames(first_frame as int, saved)]
            saved.len() == frames@.len()
            && (forall|i: int| 0 <= i < frames@.len() ==> save.ensures(((first_frame + i) as u16, &frames@[i]), #[trigger] saved[i]))
            && r@.len() == failed_frames(first_frame as int, saved).len()
            && forall|k: int| 0 <= k < r@.len() ==> #[trigger] r@[k] as int == failed_frames(first_frame as int, saved)[k],
{
    let mut numbers: Vec<u16> = Vec::new();
    let mut j: usize = 0;
    while j < frames.len()
        invariant
            first_frame + frames@.len() <= u16::MAX + 1,
            j <= frames@.len(),
            numbers@.len() == j,
            forall|k: int| 0 <= k < j ==> #[trigger] numbers@[k] == first_frame + k,
        decreases frames@.len() - j,
    {
        numbers.push(first_frame + j as u16);
        j = j + 1;
    }
    let saved = par_save_frames(&numbers, frames, save);
    let r = failed_frame_numbers(first_frame, &saved);
    assert forall|i: int| 0 <= i < frames@.len() implies save.ensures(((first_frame + i) as u16, &frames@[i]), #[trigger] saved@[i]) by {
        assert(numbers@[i] == (first_frame + i) as u16);
    }
    r
}

} // verus!
