//! Pure PCM-domain transforms for the per-device fan-out: the silent head of a
//! per-device delay line, frame alignment, and frame-aligned chunking so a
//! transform never splits a 16-bit sample across two writes.

use vstd::prelude::*;
use vstd::slice::*;

use super::model::BYTES_PER_FRAME;

verus! {

/// A buffer of `frames` silent stereo frames (all-zero s16le): prepending it
/// shifts a receiver's audio later by exactly `frames / 44100` seconds.
pub fn silence_frames(frames: usize) -> (r: Vec<u8>)
    requires
        frames * 4 <= usize::MAX,
    ensures
        r@.len() == frames * 4,
        forall|i: int| 0 <= i < r@.len() ==> r@[i] == 0,
{
    let n = frames * BYTES_PER_FRAME;
    let mut r: Vec<u8> = Vec::with_capacity(n);
    let mut i: usize = 0;
    while i < n
        invariant
            i <= n,
            r@.len() == i,
            forall|k: int| 0 <= k < i ==> r@[k] == 0,
        decreases n - i,
    {
        r.push(0);
        i = i + 1;
    }
    r
}

/// Round a byte length down to a whole number of frames.
pub fn frame_align(len: usize) -> (r: usize)
    ensures
        r == len - len % 4,
        r % 4 == 0,
        r <= len,
{
    len - (len % BYTES_PER_FRAME)
}

/// The `k`-th chunk of `len` bytes cut every `step` bytes: `[k·step,
/// min((k+1)·step, len))`.
pub open spec fn chunk_bounds(len: int, step: int, k: int) -> (int, int) {
    let a = k * step;
    let b = if (k + 1) * step < len {
        (k + 1) * step
    } else {
        len
    };
    (a, b)
}

/// How many chunks `len` bytes make when cut every `step` bytes: `⌈len / step⌉`.
pub open spec fn chunk_count(len: int, step: int) -> int {
    if len <= 0 {
        0
    } else {
        (len - 1) / step + 1
    }
}

/// The chunks of `data` cut every `step` bytes, in order.
pub open spec fn chunks_of(data: Seq<u8>, step: int) -> Seq<Seq<u8>> {
    Seq::new(
        chunk_count(data.len() as int, step) as nat,
        |k: int|
            {
                let (a, b) = chunk_bounds(data.len() as int, step, k);
                data.subrange(a, b)
            },
    )
}

/// Every chunk index below the count starts inside the buffer, and the count
/// covers the whole buffer.
proof fn lemma_chunk_count(len: int, step: int, k: int)
    requires
        step > 0,
        len >= 0,
    ensures
        chunk_count(len, step) >= 0,
        chunk_count(len, step) * step >= len,
        chunk_count(len, step) == 0 || (chunk_count(len, step) - 1) * step < len,
        0 <= k < chunk_count(len, step) ==> k * step < len,
{
    if len > 0 {
        let q = (len - 1) / step;
        let r = (len - 1) % step;
        vstd::arithmetic::div_mod::lemma_fundamental_div_mod(len - 1, step);
        vstd::arithmetic::div_mod::lemma_mod_bound(len - 1, step);
        vstd::arithmetic::div_mod::lemma_div_pos_is_pos(len - 1, step);
        assert((q + 1) * step == q * step + step) by (nonlinear_arith);
        assert(step * q == q * step) by (nonlinear_arith);
        if 0 <= k <= q {
            assert(k * step <= q * step) by (nonlinear_arith)
                requires
                    0 <= k <= q,
                    step > 0,
            ;
        }
    }
}

/// A count `n` with `(n - 1)·step < len <= n·step` is the chunk count.
proof fn lemma_chunk_count_unique(len: int, step: int, n: int)
    requires
        step > 0,
        len >= 0,
        n >= 0,
        n * step >= len,
        n == 0 || (n - 1) * step < len,
    ensures
        n == chunk_count(len, step),
{
    lemma_chunk_count(len, step, 0);
    if n > 0 && len > 0 {
        let c = chunk_count(len, step);
        assert((n - 1) * step < c * step);
        assert((c - 1) * step < n * step);
        if n < c {
            assert(n * step <= (c - 1) * step) by (nonlinear_arith)
                requires
                    n <= c - 1,
                    step > 0,
            ;
        }
        if c < n {
            assert(c * step <= (n - 1) * step) by (nonlinear_arith)
                requires
                    c <= n - 1,
                    step > 0,
            ;
        }
    } else if n > 0 {
        assert(n * step > 0) by (nonlinear_arith)
            requires
                n > 0,
                step > 0,
        ;
    }
}

/// The first `n` chunks laid end to end are the buffer up to `min(n·step, len)`.
proof fn lemma_chunks_prefix(data: Seq<u8>, step: int, n: int)
    requires
        step > 0,
        0 <= n <= chunk_count(data.len() as int, step),
    ensures
        chunks_of(data, step).take(n).flatten() == data.subrange(
            0,
            if n * step < data.len() {
                n * step
            } else {
                data.len() as int
            },
        ),
    decreases n,
{
    let cs = chunks_of(data, step);
    let len = data.len() as int;
    if n == 0 {
        assert(cs.take(0) =~= Seq::<Seq<u8>>::empty());
        assert(data.subrange(0, 0) =~= Seq::<u8>::empty());
    } else {
        lemma_chunks_prefix(data, step, n - 1);
        lemma_chunk_count(len, step, n - 1);
        assert(cs.take(n) =~= cs.take(n - 1).push(cs[n - 1]));
        cs.take(n - 1).lemma_flatten_push(cs[n - 1]);
        assert(n * step == (n - 1) * step + step) by (nonlinear_arith);
        let a = (n - 1) * step;
        let e = if n * step < len {
            n * step
        } else {
            len
        };
        assert(cs[n - 1] == data.subrange(a, e));
        assert(data.subrange(0, a) + data.subrange(a, e) =~= data.subrange(0, e));
    }
}

/// Chunking loses, repeats and reorders nothing: laid end to end the chunks
/// are the buffer; there are `⌈len / step⌉` of them; each is non-empty and at
/// most `step` bytes, every one but the last exactly `step`; and a buffer of
/// whole frames cut at a whole number of frames gives chunks of whole frames.
pub proof fn law_chunks_concat(data: Seq<u8>, step: int)
    requires
        step > 0,
    ensures
        chunks_of(data, step).flatten() == data,
        chunks_of(data, step).len() == chunk_count(data.len() as int, step),
        chunks_of(data, step).len() * step >= data.len(),
        chunks_of(data, step).len() == 0 || (chunks_of(data, step).len() - 1) * step < data.len(),
        forall|k: int|
            0 <= k < chunks_of(data, step).len() ==> {
                &&& 0 < (#[trigger] chunks_of(data, step)[k]).len() <= step
                &&& k + 1 < chunks_of(data, step).len() ==> chunks_of(data, step)[k].len() == step
                &&& (step % 4 == 0 && data.len() % 4 == 0) ==> chunks_of(data, step)[k].len() % 4
                    == 0
            },
{
    let cs = chunks_of(data, step);
    let len = data.len() as int;
    let n = chunk_count(len, step);
    lemma_chunk_count(len, step, 0);
    lemma_chunks_prefix(data, step, n);
    assert(cs.take(n) =~= cs);
    assert(data.subrange(0, len) =~= data);
    assert forall|k: int| 0 <= k < cs.len() implies {
        &&& 0 < (#[trigger] cs[k]).len() <= step
        &&& k + 1 < cs.len() ==> cs[k].len() == step
        &&& (step % 4 == 0 && len % 4 == 0) ==> cs[k].len() % 4 == 0
    } by {
        lemma_chunk_count(len, step, k);
        lemma_chunk_count(len, step, k + 1);
        law_chunks_cover(len, step, k);
        assert((k + 1) * step == k * step + step) by (nonlinear_arith);
        if step % 4 == 0 && len % 4 == 0 {
            law_chunks_frame_aligned(len, step, k);
        }
    }
}

/// Yields frame-aligned slices of at most `chunk_frames` frames from a PCM
/// byte buffer; the final slice may be shorter but is a whole number of frames
/// when the input is.
pub struct FrameChunks<'a> {
    data: &'a [u8],
    step: usize,
    pos: usize,
}

impl<'a> FrameChunks<'a> {
    pub closed spec fn spec_data(&self) -> Seq<u8> {
        self.data@
    }

    pub closed spec fn spec_step(&self) -> int {
        self.step as int
    }

    pub closed spec fn spec_pos(&self) -> int {
        self.pos as int
    }

    pub closed spec fn wf(&self) -> bool {
        &&& self.step > 0
        &&& self.pos <= self.data@.len()
        &&& self.pos % self.step == 0 || self.pos == self.data@.len()
    }

    pub fn new(data: &'a [u8], chunk_frames: usize) -> (r: Self)
        requires
            (if chunk_frames > 1 {
                chunk_frames
            } else {
                1
            }) * 4 <= usize::MAX,
        ensures
            r.wf(),
            r.spec_data() == data@,
            r.spec_step() == (if chunk_frames > 1 {
                chunk_frames
            } else {
                1
            }) * 4,
            r.spec_pos() == 0,
    {
        let frames = if chunk_frames > 1 {
            chunk_frames
        } else {
            1
        };
        proof {
            vstd::arithmetic::div_mod::lemma_small_mod(0, (frames * 4) as nat);
        }
        FrameChunks { data, step: frames * BYTES_PER_FRAME, pos: 0 }
    }

    /// The next slice, or `None` once the buffer is exhausted.
    pub fn next_chunk(&mut self) -> (r: Option<&'a [u8]>)
        requires
            old(self).wf(),
        ensures
            final(self).wf(),
            final(self).spec_data() == old(self).spec_data(),
            final(self).spec_step() == old(self).spec_step(),
            old(self).spec_pos() >= old(self).spec_data().len() ==> (r is None
                && final(self).spec_pos() == old(self).spec_pos()),
            old(self).spec_pos() < old(self).spec_data().len() ==> ({
                let k = old(self).spec_pos() / old(self).spec_step();
                let (a, b) = chunk_bounds(
                    old(self).spec_data().len() as int,
                    old(self).spec_step(),
                    k,
                );
                &&& a == old(self).spec_pos()
                &&& r matches Some(c) && c@ == old(self).spec_data().subrange(a, b)
                &&& final(self).spec_pos() == b
            }),
    {
        if self.pos >= self.data.len() {
            return None;
        }
        let remaining = self.data.len() - self.pos;
        let end = if self.step < remaining {
            self.pos + self.step
        } else {
            self.data.len()
        };
        let slice = slice_subrange(self.data, self.pos, end);
        proof {
            let k = self.pos / self.step;
            assert(self.pos % self.step == 0);
            vstd::arithmetic::div_mod::lemma_fundamental_div_mod(self.pos as int, self.step as int);
            assert(k * self.step == self.pos);
            assert((k + 1) * self.step == self.pos + self.step) by (nonlinear_arith)
                requires k * self.step == self.pos;
            if end < self.data.len() {
                assert((self.pos + self.step) % (self.step as int) == 0) by {
                    vstd::arithmetic::div_mod::lemma_mod_add_multiples_vanish(
                        self.pos as int,
                        self.step as int,
                    );
                }
            }
        }
        self.pos = end;
        Some(slice)
    }

    /// Every remaining slice, in order.
    pub fn collect_chunks(self) -> (r: Vec<&'a [u8]>)
        requires
            self.wf(),
            self.spec_pos() == 0,
        ensures
            r@.len() == chunks_of(self.spec_data(), self.spec_step()).len(),
            forall|k: int|
                0 <= k < r@.len() ==> #[trigger] r@[k]@ == chunks_of(
                    self.spec_data(),
                    self.spec_step(),
                )[k],
    {
        let mut it = self;
        let ghost data = it.spec_data();
        let ghost step = it.spec_step();
        let mut out: Vec<&'a [u8]> = Vec::new();
        assert(out@.len() * step == 0);
        loop
            invariant
                it.wf(),
                it.spec_data() == data,
                it.spec_step() == step,
                step > 0,
                it.spec_pos() == (if out@.len() * step < data.len() {
                    out@.len() * step
                } else {
                    data.len() as int
                }),
                out@.len() == 0 || (out@.len() - 1) * step < data.len(),
                forall|k: int|
                    0 <= k < out@.len() ==> {
                        let (a, b) = chunk_bounds(data.len() as int, step, k);
                        #[trigger] out@[k]@ == data.subrange(a, b)
                    },
            ensures
                out@.len() * step >= data.len(),
                out@.len() == 0 || (out@.len() - 1) * step < data.len(),
                forall|k: int|
                    0 <= k < out@.len() ==> {
                        let (a, b) = chunk_bounds(data.len() as int, step, k);
                        #[trigger] out@[k]@ == data.subrange(a, b)
                    },
            decreases data.len() - it.spec_pos(),
        {
            let ghost n = out@.len();
            let ghost p = it.spec_pos();
            match it.next_chunk() {
                Some(c) => {
                    proof {
                        assert(p < data.len());
                        assert(p == n * step);
                        assert(p / step == n) by {
                            vstd::arithmetic::div_mod::lemma_div_multiples_vanish(
                                n as int,
                                step,
                            );
                            assert(step * n == n * step) by (nonlinear_arith);
                        }
                    }
                    out.push(c);
                    proof {
                        assert((n + 1) * step == n * step + step) by (nonlinear_arith);
                    }
                },
                None => {
                    break ;
                },
            }
        }
        proof {
            lemma_chunk_count_unique(data.len() as int, step, out@.len() as int);
        }
        out
    }
}

/// Chunking is lossless: the chunks laid end to end are the buffer.
pub proof fn law_chunks_cover(len: int, step: int, k: int)
    requires
        step > 0,
        0 <= k,
        k * step < len,
    ensures
        chunk_bounds(len, step, k).0 < chunk_bounds(len, step, k).1,
        chunk_bounds(len, step, k).1 == len || chunk_bounds(len, step, k).1 == chunk_bounds(
            len,
            step,
            k + 1,
        ).0,
{
    assert((k + 1) * step == k * step + step) by (nonlinear_arith);
}

/// A frame-aligned buffer cut at a whole number of frames yields chunks of a
/// whole number of frames, none longer than the step: no transform ever sees
/// a split sample.
pub proof fn law_chunks_frame_aligned(len: int, step: int, k: int)
    requires
        step > 0,
        step % 4 == 0,
        len % 4 == 0,
        0 <= k,
        k * step < len,
    ensures
        (chunk_bounds(len, step, k).1 - chunk_bounds(len, step, k).0) % 4 == 0,
        chunk_bounds(len, step, k).1 - chunk_bounds(len, step, k).0 <= step,
{
    let a = k * step;
    assert((k + 1) * step == a + step) by (nonlinear_arith)
        requires
            a == k * step,
    ;
    let t = step / 4;
    assert(step == 4 * t);
    assert(a == 4 * (k * t)) by (nonlinear_arith)
        requires
            a == k * step,
            step == 4 * t,
    ;
    let l = len / 4;
    assert(len == 4 * l);
    assert(a % 4 == 0);
    assert((len - a) % 4 == 0);
}

} // verus!
