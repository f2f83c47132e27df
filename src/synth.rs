use vstd::prelude::*;

verus! {

/// Why a synthesis request cannot be served.
#[derive(Clone, Copy, Debug, PartialEq, Eq, Structural)]
pub enum SynthError {
    /// The band list is empty, or its bands hold different numbers of blocks.
    InconsistentBandLength,
    /// There are no blocks, or a block would hold no samples.
    DegenerateTiming,
    /// The buffer to normalise is silent, or its peak is not finite.
    DegenerateSignal,
    /// A decibel range produced an amplitude that is not finite.
    InvalidRange,
}

/// All bands hold the same number of blocks, and there is at least one band.
pub open spec fn same_lengths<T>(bands: Seq<Vec<T>>) -> bool {
    &&& bands.len() > 0
    &&& forall|i: int| 0 <= i < bands.len() ==> #[trigger] bands[i]@.len() == bands[0]@.len()
}

/// The number of time blocks that every band of `bands` holds.
pub fn block_count<T>(bands: &Vec<Vec<T>>) -> (r: Result<usize, SynthError>)
    ensures
        r is Ok <==> same_lengths(bands@),
        r matches Ok(n) ==> n == bands@[0]@.len(),
        r matches Err(e) ==> e == SynthError::InconsistentBandLength,
{
    if bands.len() == 0 {
        return Err(SynthError::InconsistentBandLength);
    }
    let n = bands[0].len();
    let mut i: usize = 1;
    while i < bands.len()
        invariant
            1 <= i <= bands@.len(),
            n == bands@[0]@.len(),
            forall|m: int| 0 <= m < i ==> #[trigger] bands@[m]@.len() == n,
        decreases bands@.len() - i,
    {
        if bands[i].len() != n {
            return Err(SynthError::InconsistentBandLength);
        }
        i = i + 1;
    }
    Ok(n)
}

/// How much of the blended amplitude comes from the block's own value.
#[derive(Clone, Copy, Debug, PartialEq, Eq, Structural)]
pub enum Envelope {
    /// The block's own amplitude, unblended.
    Steady,
    /// Blend from the average with the previous block towards the block's own
    /// amplitude, at `position / span` of the way (at the start when `span` is 0).
    FromPrevious { position: usize, span: usize },
    /// Blend from the average with the next block towards the block's own
    /// amplitude, at `position / span` of the way (at the start when `span` is 0).
    FromNext { position: usize, span: usize },
}

/// One oscillator step: the output sample it adds to, and its amplitude blend.
#[derive(Clone, Copy, Debug, PartialEq, Eq, Structural)]
pub struct Step {
    pub index: usize,
    pub envelope: Envelope,
}

/// The block layout of one synthesis run.
#[derive(Clone, Copy, Debug)]
pub struct Timing {
    pub block_count: usize,
    pub samples_per_block: usize,
    /// The length of each crossfade window: a tenth of a block.
    pub interpolation_count: usize,
}

impl Timing {
    pub open spec fn wf(&self) -> bool {
        &&& self.block_count > 0
        &&& self.samples_per_block > 0
        &&& self.interpolation_count == self.samples_per_block / 10
        &&& self.samples_per_block * self.block_count <= usize::MAX
    }

    /// The length of the output buffer.
    pub open spec fn total_spec(&self) -> int {
        self.samples_per_block * self.block_count
    }

    /// The length of the crossfade from the previous block at the start of `block`.
    pub open spec fn head_spec(&self, block: int) -> int {
        if self.interpolation_count > 0 && block > 0 {
            self.interpolation_count as int
        } else {
            0
        }
    }

    /// The length of the crossfade into the next block at the end of `block`.
    pub open spec fn tail_spec(&self, block: int) -> int {
        if self.interpolation_count > 0 && block + 1 < self.block_count {
            self.interpolation_count as int
        } else {
            0
        }
    }

    /// Step `offset` of `block`, in phase order. The head and the body write
    /// the block's samples in order; the tail writes the block's last sample
    /// first and moves backwards towards the body, while the phase still
    /// advances by one step each time.
    pub open spec fn step_spec(&self, block: int, offset: int) -> Step {
        let base = block * self.samples_per_block;
        let body_end = self.samples_per_block - self.tail_spec(block);
        if offset < self.head_spec(block) {
            Step {
                index: (base + offset) as usize,
                envelope: Envelope::FromPrevious {
                    position: offset as usize,
                    span: (self.interpolation_count - 1) as usize,
                },
            }
        } else if offset < body_end {
            Step { index: (base + offset) as usize, envelope: Envelope::Steady }
        } else {
            let j = offset - body_end;
            Step {
                index: (base + self.samples_per_block - j - 1) as usize,
                envelope: Envelope::FromNext {
                    position: j as usize,
                    span: (self.interpolation_count - 1) as usize,
                },
            }
        }
    }

    /// The step of `block` that writes sample `i` of the output buffer.
    pub open spec fn offset_of(&self, block: int, i: int) -> int {
        let local = i - block * self.samples_per_block;
        let body_end = self.samples_per_block - self.tail_spec(block);
        if local < body_end {
            local
        } else {
            body_end + self.samples_per_block - 1 - local
        }
    }

    /// The layout of `block_count` blocks of `samples_per_block` samples each.
    pub fn new(samples_per_block: usize, block_count: usize) -> (r: Result<Timing, SynthError>)
        requires
            samples_per_block * block_count <= usize::MAX,
        ensures
            r is Ok <==> (samples_per_block > 0 && block_count > 0),
            r matches Ok(t) ==> {
                &&& t.wf()
                &&& t.samples_per_block == samples_per_block
                &&& t.block_count == block_count
                &&& t.interpolation_count == samples_per_block / 10
            },
            r matches Err(e) ==> e == SynthError::DegenerateTiming,
    {
        if samples_per_block == 0 || block_count == 0 {
            Err(SynthError::DegenerateTiming)
        } else {
            Ok(Timing { block_count, samples_per_block, interpolation_count: samples_per_block / 10 })
        }
    }

    /// The length of the output buffer.
    pub fn total_len(&self) -> (r: usize)
        requires
            self.wf(),
        ensures
            r == self.total_spec(),
    {
        self.samples_per_block * self.block_count
    }

    /// The length of the crossfade at the start of `block`.
    pub fn head_len(&self, block: usize) -> (r: usize)
        ensures
            r == self.head_spec(block as int),
    {
        if self.interpolation_count > 0 && block > 0 {
            self.interpolation_count
        } else {
            0
        }
    }

    /// The length of the crossfade at the end of `block`.
    pub fn tail_len(&self, block: usize) -> (r: usize)
        ensures
            r == self.tail_spec(block as int),
    {
        if self.interpolation_count > 0 && block < self.block_count && block + 1 < self.block_count {
            self.interpolation_count
        } else {
            0
        }
    }

    /// Step `offset` of `block`, in phase order.
    pub fn step(&self, block: usize, offset: usize) -> (r: Step)
        requires
            self.wf(),
            block < self.block_count,
            offset < self.samples_per_block,
        ensures
            r == self.step_spec(block as int, offset as int),
    {
        let spb = self.samples_per_block;
        proof {
            assert(block * spb + spb <= spb * self.block_count) by (nonlinear_arith)
                requires
                    block < self.block_count,
            ;
        }
        let base = block * spb;
        let head = self.head_len(block);
        let tail = self.tail_len(block);
        let body_end = spb - tail;
        if offset < head {
            Step {
                index: base + offset,
                envelope: Envelope::FromPrevious {
                    position: offset,
                    span: self.interpolation_count - 1,
                },
            }
        } else if offset < body_end {
            Step { index: base + offset, envelope: Envelope::Steady }
        } else {
            let j = offset - body_end;
            Step {
                index: base + spb - j - 1,
                envelope: Envelope::FromNext { position: j, span: self.interpolation_count - 1 },
            }
        }
    }
}

/// A block's head, body and tail together make up the block, and one band's
/// steps for that block write each of its samples exactly once and nothing
/// outside it.
pub proof fn lemma_block_written_once(t: Timing, block: int)
    requires
        t.wf(),
        0 <= block < t.block_count,
    ensures
        0 <= t.head_spec(block),
        0 <= t.tail_spec(block),
        t.head_spec(block) + t.tail_spec(block) <= t.samples_per_block,
        forall|o: int|
            0 <= o < t.samples_per_block ==> block * t.samples_per_block <= #[trigger] t.step_spec(
                block,
                o,
            ).index < (block + 1) * t.samples_per_block,
        forall|o1: int, o2: int|
            0 <= o1 < t.samples_per_block && 0 <= o2 < t.samples_per_block && o1 != o2
                ==> #[trigger] t.step_spec(block, o1).index != #[trigger] t.step_spec(block, o2).index,
        forall|i: int|
            block * t.samples_per_block <= i < (block + 1) * t.samples_per_block ==> {
                &&& 0 <= #[trigger] t.offset_of(block, i) < t.samples_per_block
                &&& t.step_spec(block, t.offset_of(block, i)).index == i
            },
{
    let spb = t.samples_per_block as int;
    assert(block * spb + spb <= spb * t.block_count) by (nonlinear_arith)
        requires
            block < t.block_count,
            spb >= 0,
    ;
    assert((block + 1) * spb == block * spb + spb) by (nonlinear_arith);
    assert(0 <= block * spb) by (nonlinear_arith)
        requires
            block >= 0,
            spb >= 0,
    ;
}

/// One band's steps, block after block, write each sample of the output
/// buffer of `samples_per_block * block_count` samples exactly once.
pub proof fn lemma_buffer_written_once(t: Timing)
    requires
        t.wf(),
    ensures
        forall|b: int, o: int|
            0 <= b < t.block_count && 0 <= o < t.samples_per_block ==> #[trigger] t.step_spec(
                b,
                o,
            ).index < t.total_spec(),
        forall|b1: int, o1: int, b2: int, o2: int|
            0 <= b1 < t.block_count && 0 <= o1 < t.samples_per_block && 0 <= b2 < t.block_count
                && 0 <= o2 < t.samples_per_block && (b1 != b2 || o1 != o2) ==> #[trigger] t.step_spec(
                b1,
                o1,
            ).index != #[trigger] t.step_spec(b2, o2).index,
        forall|i: int|
            0 <= i < t.total_spec() ==> {
                &&& 0 <= #[trigger] (i / t.samples_per_block as int) < t.block_count
                &&& 0 <= t.offset_of(i / t.samples_per_block as int, i) < t.samples_per_block
                &&& t.step_spec(
                    i / t.samples_per_block as int,
                    t.offset_of(i / t.samples_per_block as int, i),
                ).index == i
            },
{
    let spb = t.samples_per_block as int;
    let bc = t.block_count as int;
    assert forall|b: int, o: int| 0 <= b < bc && 0 <= o < spb implies #[trigger] t.step_spec(
        b,
        o,
    ).index < t.total_spec() by {
        lemma_block_written_once(t, b);
        assert((b + 1) * spb <= spb * bc) by (nonlinear_arith)
            requires
                b < bc,
                spb >= 0,
        ;
    }
    assert forall|b1: int, o1: int, b2: int, o2: int|
        0 <= b1 < bc && 0 <= o1 < spb && 0 <= b2 < bc && 0 <= o2 < spb && (b1 != b2 || o1 != o2)
            implies #[trigger] t.step_spec(b1, o1).index != #[trigger] t.step_spec(b2, o2).index by {
        lemma_block_written_once(t, b1);
        lemma_block_written_once(t, b2);
        if b1 < b2 {
            assert((b1 + 1) * spb <= b2 * spb) by (nonlinear_arith)
                requires
                    b1 < b2,
                    spb >= 0,
            ;
        } else if b2 < b1 {
            assert((b2 + 1) * spb <= b1 * spb) by (nonlinear_arith)
                requires
                    b2 < b1,
                    spb >= 0,
            ;
        }
    }
    assert forall|i: int| 0 <= i < t.total_spec() implies {
        &&& 0 <= #[trigger] (i / t.samples_per_block as int) < t.block_count
        &&& 0 <= t.offset_of(i / t.samples_per_block as int, i) < t.samples_per_block
        &&& t.step_spec(i / t.samples_per_block as int, t.offset_of(i / t.samples_per_block as int, i)).index
            == i
    } by {
        let b = i / spb;
        assert(0 <= b < bc && b * spb <= i < (b + 1) * spb) by (nonlinear_arith)
            requires
                0 <= i < spb * bc,
                spb > 0,
                b == i / spb,
        ;
        lemma_block_written_once(t, b);
    }
}

/// With a single block there is no crossfade: step `k` writes sample `k` at
/// the band's own amplitude.
pub proof fn lemma_single_block_is_plain(t: Timing)
    requires
        t.wf(),
        t.block_count == 1,
    ensures
        forall|k: int|
            0 <= k < t.samples_per_block ==> #[trigger] t.step_spec(0, k) == (Step {
                index: k as usize,
                envelope: Envelope::Steady,
            }),
{
}

/// The crossfade at the start of a later block runs from the average with the
/// previous block (its first step, at none of the way) to the block's own
/// amplitude (its last step, all of the way), over the block's first samples.
pub proof fn lemma_head_crossfade_ends(t: Timing, block: int)
    requires
        t.wf(),
        0 < block < t.block_count,
        t.interpolation_count >= 2,
    ensures
        t.step_spec(block, 0) == (Step {
            index: (block * t.samples_per_block) as usize,
            envelope: Envelope::FromPrevious { position: 0, span: (t.interpolation_count - 1) as usize },
        }),
        t.step_spec(block, t.interpolation_count - 1) == (Step {
            index: (block * t.samples_per_block + t.interpolation_count - 1) as usize,
            envelope: Envelope::FromPrevious {
                position: (t.interpolation_count - 1) as usize,
                span: (t.interpolation_count - 1) as usize,
            },
        }),
{
}

} // verus!
