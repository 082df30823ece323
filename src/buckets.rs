use vstd::prelude::*;

verus! {

/// How many of `flags` are set.
pub open spec fn count_set(flags: Seq<bool>) -> nat
    decreases flags.len(),
{
    if flags.len() == 0 {
        0
    } else {
        count_set(flags.drop_last()) + if flags.last() {
            1nat
        } else {
            0nat
        }
    }
}

/// Gating applies when more than seven eighths of the buckets are quiet.
pub open spec fn gate_closes(quiet: nat, len: nat) -> bool {
    quiet * 8 > len * 7
}

/// Buckets after gating. `below[i]` says that bucket `i` lies under the
/// gate threshold and `near_peak[i]` that it lies above the frame's peak
/// minus the threshold. When gating applies, every bucket with either mark
/// is zeroed; otherwise the buckets pass unchanged.
pub open spec fn gated<T>(buckets: Seq<T>, below: Seq<bool>, near_peak: Seq<bool>, zero: T) -> Seq<
    T,
> {
    if gate_closes(count_set(below), buckets.len()) {
        Seq::new(
            buckets.len(),
            |i: int|
                if below[i] || near_peak[i] {
                    zero
                } else {
                    buckets[i]
                },
        )
    } else {
        buckets
    }
}

/// Whether `quiet` of `len` buckets lying under the threshold trigger gating.
pub fn gate_closes_for(quiet: usize, len: usize) -> (r: bool)
    ensures
        r == gate_closes(quiet as nat, len as nat),
{
    (quiet as u128) * 8 > (len as u128) * 7
}

/// Silence and noise gate over one frame of buckets; returns whether it
/// closed. See [`gated`] for the marks it reads.
pub fn gate<T: Copy>(buckets: &mut Vec<T>, below: &Vec<bool>, near_peak: &Vec<bool>, zero: T) -> (closed: bool)
    requires
        below@.len() == old(buckets)@.len(),
        near_peak@.len() == old(buckets)@.len(),
    ensures
        closed == gate_closes(count_set(below@), old(buckets)@.len()),
        final(buckets)@ == gated(old(buckets)@, below@, near_peak@, zero),
{
    let len = buckets.len();
    let mut quiet: usize = 0;
    let mut i: usize = 0;
    while i < len
        invariant
            len == below@.len(),
            i <= len,
            quiet == count_set(below@.subrange(0, i as int)),
            quiet <= i,
        decreases len - i,
    {
        assert(below@.subrange(0, i + 1).drop_last() == below@.subrange(0, i as int));
        if below[i] {
            quiet = quiet + 1;
        }
        i = i + 1;
    }
    assert(below@.subrange(0, len as int) == below@);
    let closed = gate_closes_for(quiet, len);
    if closed {
        let ghost original = buckets@;
        let mut j: usize = 0;
        while j < len
            invariant
                len == original.len(),
                len == below@.len(),
                len == near_peak@.len(),
                j <= len,
                buckets@.len() == len,
                forall|k: int|
                    0 <= k < j ==> buckets@[k] == (if below@[k] || near_peak@[k] {
                        zero
                    } else {
                        original[k]
                    }),
                forall|k: int| j <= k < len ==> buckets@[k] == original[k],
            decreases len - j,
        {
            if below[j] || near_peak[j] {
                buckets[j] = zero;
            }
            j = j + 1;
        }
        assert(buckets@ == gated(original, below@, near_peak@, zero));
    }
    closed
}

/// A frame of silence stays silent through gating, whatever the marks.
pub proof fn gate_keeps_silence<T>(buckets: Seq<T>, below: Seq<bool>, near_peak: Seq<bool>, zero: T)
    requires
        below.len() == buckets.len(),
        near_peak.len() == buckets.len(),
        forall|i: int| 0 <= i < buckets.len() ==> buckets[i] == zero,
    ensures
        forall|i: int|
            0 <= i < buckets.len() ==> #[trigger] gated(buckets, below, near_peak, zero)[i] == zero,
{
}

/// Scales one frame of buckets by its peak. The caller says whether the
/// peak is a positive number; `scale` divides one bucket by it. A frame
/// without a positive peak (silent, or all negative) comes out all `zero`,
/// so that no division by zero ever takes place.
pub fn normalize_buckets<T: Copy, F: Fn(T) -> T>(
    buckets: &Vec<T>,
    peak_positive: bool,
    zero: T,
    scale: F,
) -> (r: Vec<T>)
    requires
        forall|b: T| #[trigger] scale.requires((b,)),
    ensures
        r@.len() == buckets@.len(),
        !peak_positive ==> r@ == Seq::new(buckets@.len(), |i: int| zero),
        peak_positive ==> forall|i: int|
            0 <= i < r@.len() ==> scale.ensures((buckets@[i],), #[trigger] r@[i]),
{
    let len = buckets.len();
    let mut out: Vec<T> = Vec::new();
    let mut i: usize = 0;
    while i < len
        invariant
            forall|b: T| #[trigger] scale.requires((b,)),
            len == buckets@.len(),
            i <= len,
            out@.len() == i,
            !peak_positive ==> out@ == Seq::new(i as nat, |k: int| zero),
            peak_positive ==> forall|k: int|
                0 <= k < i ==> scale.ensures((buckets@[k],), #[trigger] out@[k]),
        decreases len - i,
    {
        if peak_positive {
            out.push(scale(buckets[i]));
        } else {
            out.push(zero);
        }
        i = i + 1;
    }
    out
}

/// The buckets that smoothing averages around bucket `i`: those within
/// `radius` of it that exist, from `lo` up to but not including `hi`.
pub open spec fn window_spec(i: nat, radius: nat, len: nat) -> (nat, nat) {
    (
        if i >= radius {
            (i - radius) as nat
        } else {
            0
        },
        if i + radius + 1 <= len {
            i + radius + 1
        } else {
            len
        },
    )
}

/// Neighbourhood of bucket `i` for smoothing of the given radius. Buckets
/// near an edge use only the neighbours that exist: no wrap-around and no
/// reflection.
pub fn smoothing_window(i: usize, radius: u32, len: usize) -> (r: (usize, usize))
    requires
        i < len,
    ensures
        (r.0 as nat, r.1 as nat) == window_spec(i as nat, radius as nat, len as nat),
        r.0 <= i < r.1 <= len,
{
    let radius = radius as usize;
    let lo = if i >= radius {
        i - radius
    } else {
        0
    };
    let hi = if radius < len - i {
        i + radius + 1
    } else {
        len
    };
    (lo, hi)
}

/// `out[k]` is what `kernel` gives for bucket `k` over its window of
/// `snapshot`, for every `k` below `upto`.
pub open spec fn pass_from<T, F: Fn(&Vec<T>, usize, usize, usize) -> T>(
    kernel: F,
    snapshot: Vec<T>,
    out: Seq<T>,
    radius: u32,
    upto: int,
) -> bool {
    forall|k: int|
        0 <= k < upto ==> kernel.ensures(
            (
                &snapshot,
                k as usize,
                window_spec(k as nat, radius as nat, out.len()).0 as usize,
                window_spec(k as nat, radius as nat, out.len()).1 as usize,
            ),
            #[trigger] out[k],
        )
}

/// `out` is one smoothing pass over `before`: every bucket of `out` is the
/// kernel value over its own window of a snapshot equal to `before`.
pub open spec fn one_pass<T, F: Fn(&Vec<T>, usize, usize, usize) -> T>(
    kernel: F,
    before: Seq<T>,
    out: Seq<T>,
    radius: u32,
) -> bool {
    out.len() == before.len() && exists|snapshot: Vec<T>|
        snapshot@ == before && #[trigger] pass_from(kernel, snapshot, out, radius, out.len() as int)
}

/// `frames` runs from `start` through one smoothing pass per step, each
/// pass reading the frame the one before it left.
pub open spec fn pass_chain<T, F: Fn(&Vec<T>, usize, usize, usize) -> T>(
    kernel: F,
    frames: Seq<Seq<T>>,
    radius: u32,
) -> bool {
    forall|k: int|
        0 <= k < frames.len() - 1 ==> #[trigger] one_pass(kernel, frames[k], frames[k + 1], radius)
}

/// `out` is what `passes` smoothing passes in a row make of `start`.
pub open spec fn smoothed_from<T, F: Fn(&Vec<T>, usize, usize, usize) -> T>(
    kernel: F,
    start: Seq<T>,
    out: Seq<T>,
    radius: u32,
    passes: nat,
) -> bool {
    exists|frames: Seq<Seq<T>>|
        #![trigger pass_chain(kernel, frames, radius)]
        frames.len() == passes + 1 && frames[0] == start && frames[passes as int] == out
            && pass_chain(kernel, frames, radius)
}

proof fn lemma_smoothed_step<T, F: Fn(&Vec<T>, usize, usize, usize) -> T>(
    kernel: F,
    start: Seq<T>,
    mid: Seq<T>,
    out: Seq<T>,
    radius: u32,
    passes: nat,
)
    requires
        smoothed_from(kernel, start, mid, radius, passes),
        one_pass(kernel, mid, out, radius),
    ensures
        smoothed_from(kernel, start, out, radius, passes + 1),
{
    let frames = choose|frames: Seq<Seq<T>>|
        #![trigger pass_chain(kernel, frames, radius)]
        frames.len() == passes + 1 && frames[0] == start && frames[passes as int] == mid
            && pass_chain(kernel, frames, radius);
    let longer = frames.push(out);
    assert forall|k: int| 0 <= k < longer.len() - 1 implies #[trigger] one_pass(
        kernel,
        longer[k],
        longer[k + 1],
        radius,
    ) by {
        if k < passes {
            assert(one_pass(kernel, frames[k], frames[k + 1], radius));
        }
    }
    assert(pass_chain(kernel, longer, radius));
}

/// Neighbourhood smoothing, repeated `passes` times. Each pass reads a
/// snapshot of the buckets as the previous pass left them and replaces
/// bucket `i` by `kernel(snapshot, i, lo, hi)`, where `lo..hi` is the window
/// [`smoothing_window`] gives. The kernel carries the weighting: for a
/// Gaussian, the weighted mean of `snapshot[lo..hi]` with weights
/// `exp(-(j - i)^2 / (2 * radius))`. No passes leave the buckets as they are.
pub fn smooth<T: Copy, F: Fn(&Vec<T>, usize, usize, usize) -> T>(
    buffer: &mut Vec<T>,
    passes: u32,
    radius: u32,
    kernel: F,
)
    requires
        forall|s: &Vec<T>, i: usize, lo: usize, hi: usize|
            lo <= i < hi <= s@.len() ==> #[trigger] kernel.requires((s, i, lo, hi)),
    ensures
        final(buffer)@.len() == old(buffer)@.len(),
        passes == 0 ==> final(buffer)@ == old(buffer)@,
        smoothed_from(kernel, old(buffer)@, final(buffer)@, radius, passes as nat),
{
    let ghost original = buffer@;
    let len = buffer.len();
    let mut pass: u32 = 0;
    assert(pass_chain(kernel, seq![original], radius));
    while pass < passes
        invariant
            forall|s: &Vec<T>, i: usize, lo: usize, hi: usize|
                lo <= i < hi <= s@.len() ==> #[trigger] kernel.requires((s, i, lo, hi)),
            buffer@.len() == len,
            len == original.len(),
            pass <= passes,
            smoothed_from(kernel, original, buffer@, radius, pass as nat),
        decreases passes - pass,
    {
        let ghost previous = buffer@;
        let snapshot = copied(buffer);
        let mut i: usize = 0;
        while i < len
            invariant
                forall|s: &Vec<T>, i: usize, lo: usize, hi: usize|
                    lo <= i < hi <= s@.len() ==> #[trigger] kernel.requires((s, i, lo, hi)),
                buffer@.len() == len,
                snapshot@.len() == len,
                i <= len,
                pass_from(kernel, snapshot, buffer@, radius, i as int),
            decreases len - i,
        {
            let (lo, hi) = smoothing_window(i, radius, len);
            let value = kernel(&snapshot, i, lo, hi);
            let ghost before = buffer@;
            buffer[i] = value;
            i = i + 1;
            assert(pass_from(kernel, snapshot, buffer@, radius, i as int)) by {
                assert forall|k: int| 0 <= k < i implies kernel.ensures(
                    (
                        &snapshot,
                        k as usize,
                        window_spec(k as nat, radius as nat, buffer@.len()).0 as usize,
                        window_spec(k as nat, radius as nat, buffer@.len()).1 as usize,
                    ),
                    #[trigger] buffer@[k],
                ) by {
                    if k < i - 1 {
                        assert(before[k] == buffer@[k]);
                        assert(pass_from(kernel, snapshot, before, radius, (i - 1) as int));
                    }
                }
            }
        }
        assert(one_pass(kernel, previous, buffer@, radius));
        assert(smoothed_from(kernel, original, previous, radius, pass as nat));
        proof {
            lemma_smoothed_step(kernel, original, previous, buffer@, radius, pass as nat);
        }
        pass = pass + 1;
    }
}

/// An element-by-element copy of `v`.
pub(crate) fn copied<T: Copy>(v: &Vec<T>) -> (r: Vec<T>)
    ensures
        r@ == v@,
{
    let mut out: Vec<T> = Vec::new();
    let mut c: usize = 0;
    while c < v.len()
        invariant
            c <= v@.len(),
            out@ == v@.subrange(0, c as int),
        decreases v@.len() - c,
    {
        out.push(v[c]);
        c = c + 1;
    }
    assert(v@.subrange(0, v@.len() as int) == v@);
    out
}

} // verus!
