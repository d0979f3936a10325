//! The flange: an echo whose lag is swept to and fro by a slow oscillator.
use crate::error::ConfigError;
use crate::kernel::SILENCE;
use crate::ring::MAX_FRAMES;
use vstd::prelude::*;

verus! {

/// The shortest lag of the echo, in samples.
pub const BASE_LAG: usize = 1;

/// How far behind the newest sample the echo is read, for an oscillator
/// sweep of `sweep` samples in a line of `frames` samples: the sweep on top
/// of the base lag, held below the length of the line.
pub open spec fn reverse_offset(sweep: nat, frames: nat) -> nat {
    if sweep + BASE_LAG < frames {
        sweep + BASE_LAG as nat
    } else {
        (frames - 1) as nat
    }
}

/// Where in a line of `frames` samples, counted from the oldest, the sample
/// stands that was written `reverse` steps ago. A way back of nothing, or of
/// the whole line, leads to the oldest sample.
pub open spec fn tap_position(frames: nat, reverse: nat) -> int {
    if reverse == 0 || reverse >= frames {
        0
    } else {
        frames - reverse
    }
}

/// What a flange filter is: its last outputs, as many as the line is long and
/// the oldest first, the number of samples it has seen, and its parameters.
pub struct FlangeView {
    /// The outputs in the line, the oldest first.
    pub history: Seq<u32>,
    /// The number of samples seen.
    pub elapsed: u64,
    /// What one sample adds to the argument of the oscillator.
    pub coefficient: u32,
    /// How far the oscillator sweeps to either side, in samples.
    pub amplitude: u32,
    /// The gain at which an echo comes back.
    pub decay: u32,
}

impl FlangeView {
    /// A new filter: a line of silence, and no sample seen yet.
    pub open spec fn silent(frames: nat, coefficient: u32, amplitude: u32, decay: u32)
        -> FlangeView {
        FlangeView {
            history: Seq::new(frames, |i: int| SILENCE),
            elapsed: 0,
            coefficient,
            amplitude,
            decay,
        }
    }

    /// The sample that was written `reverse` steps ago.
    pub open spec fn tapped(self, reverse: nat) -> u32 {
        self.history[tap_position(self.history.len(), reverse)]
    }

    /// The filter with `y` written into its line in place of the oldest
    /// sample.
    pub open spec fn written(self, y: u32) -> FlangeView {
        FlangeView { history: self.history.drop_first().push(y), ..self }
    }

    /// The filter one sample later. The count of samples stops at the
    /// largest `u64`.
    pub open spec fn ticked(self) -> FlangeView {
        FlangeView {
            elapsed: if self.elapsed < u64::MAX {
                (self.elapsed + 1) as u64
            } else {
                self.elapsed
            },
            ..self
        }
    }

    /// Whether `r` is a lag that the oscillator `lfo` may choose for the
    /// next step.
    pub open spec fn lag<L: Fn(u64, u32, u32) -> usize>(self, lfo: L, r: nat) -> bool {
        exists|sweep: usize|
            #![trigger lfo.ensures((self.elapsed, self.coefficient, self.amplitude), sweep)]
            lfo.ensures((self.elapsed, self.coefficient, self.amplitude), sweep) && r
                == reverse_offset(sweep as nat, self.history.len())
    }

    /// Whether `y` may be the output of the next step on input `x`: the
    /// sample at a lag that the oscillator chooses, mixed into `x`.
    pub open spec fn output<L: Fn(u64, u32, u32) -> usize, M: Fn(u32, u32, u32) -> u32>(
        self,
        x: u32,
        lfo: L,
        mix: M,
        y: u32,
    ) -> bool {
        exists|r: nat| #[trigger] self.lag(lfo, r) && mix.ensures((x, self.tapped(r), self.decay), y)
    }
}

/// The slot of a ring of `frames` slots that holds the sample at position `j`
/// from the oldest, when the oldest stands in slot `cursor`.
spec fn slot(cursor: int, j: int, frames: int) -> int {
    if cursor + j < frames {
        cursor + j
    } else {
        cursor + j - frames
    }
}

/// An echo with a swept lag.
pub struct FlangeFilter {
    buffer: Vec<u32>,
    cursor: usize,
    elapsed: u64,
    coefficient: u32,
    amplitude: u32,
    decay: u32,
}

impl View for FlangeFilter {
    type V = FlangeView;

    closed spec fn view(&self) -> FlangeView {
        FlangeView {
            history: Seq::new(
                self.buffer@.len(),
                |j: int| self.buffer@[slot(self.cursor as int, j, self.buffer@.len() as int)],
            ),
            elapsed: self.elapsed,
            coefficient: self.coefficient,
            amplitude: self.amplitude,
            decay: self.decay,
        }
    }
}

impl FlangeFilter {
    /// The line holds at least one sample and the cursor stands inside it.
    pub closed spec fn wf(&self) -> bool {
        &&& 1 <= self.buffer@.len() <= MAX_FRAMES
        &&& self.cursor < self.buffer@.len()
    }

    /// The line of a well-formed filter is never empty.
    pub proof fn lemma_line_not_empty(&self)
        requires
            self.wf(),
        ensures
            1 <= self@.history.len() <= MAX_FRAMES,
    {
    }

    /// A filter with a line of `buffer_size` samples of silence. A line of no
    /// samples and a line longer than `MAX_FRAMES` are refused.
    pub fn new(buffer_size: usize, coefficient: u32, amplitude: u32, decay: u32) -> (r: Result<
        FlangeFilter,
        ConfigError,
    >)
        ensures
            buffer_size == 0 <==> r == Err::<FlangeFilter, ConfigError>(ConfigError::ZeroLength),
            buffer_size > MAX_FRAMES <==> r == Err::<FlangeFilter, ConfigError>(
                ConfigError::TooLong,
            ),
            0 < buffer_size <= MAX_FRAMES <==> r is Ok,
            r matches Ok(f) ==> f.wf() && f@ == FlangeView::silent(
                buffer_size as nat,
                coefficient,
                amplitude,
                decay,
            ),
    {
        if buffer_size == 0 {
            return Err(ConfigError::ZeroLength);
        }
        if buffer_size > MAX_FRAMES {
            return Err(ConfigError::TooLong);
        }
        let mut buffer: Vec<u32> = Vec::with_capacity(buffer_size);
        while buffer.len() < buffer_size
            invariant
                buffer@.len() <= buffer_size,
                forall|i: int| 0 <= i < buffer@.len() ==> buffer@[i] == SILENCE,
            decreases buffer_size - buffer@.len(),
        {
            buffer.push(SILENCE);
        }
        let f = FlangeFilter { buffer, cursor: 0, elapsed: 0, coefficient, amplitude, decay };
        assert(f@.history =~= FlangeView::silent(
            buffer_size as nat,
            coefficient,
            amplitude,
            decay,
        ).history);
        Ok(f)
    }

    /// The sample that was written `reverse_offset` steps ago.
    pub fn read_buffer(&self, reverse_offset: usize) -> (h: u32)
        requires
            self.wf(),
            reverse_offset <= self@.history.len(),
        ensures
            h == self@.tapped(reverse_offset as nat),
    {
        let offset = if self.cursor >= reverse_offset {
            self.cursor - reverse_offset
        } else {
            self.buffer.len() - reverse_offset + self.cursor
        };
        self.buffer[offset]
    }

    /// Writes `sample` into the line in place of the oldest sample.
    pub fn write_buffer(&mut self, sample: u32)
        requires
            old(self).wf(),
        ensures
            final(self).wf(),
            final(self)@ == old(self)@.written(sample),
    {
        let ghost before = *self;
        self.buffer[self.cursor] = sample;
        self.cursor += 1;
        if self.cursor >= self.buffer.len() {
            self.cursor = 0;
        }
        assert(self@.history =~= before@.written(sample).history);
    }

    /// The lag for an oscillator sweep of `sweep` samples.
    pub fn clamp_offset(&self, sweep: usize) -> (r: usize)
        requires
            self.wf(),
        ensures
            r == reverse_offset(sweep as nat, self@.history.len()),
            r < self@.history.len(),
    {
        let last = self.buffer.len() - 1;
        if sweep < last {
            sweep + BASE_LAG
        } else {
            last
        }
    }

    /// The lag of the next step, as the oscillator `lfo` sweeps it.
    pub fn offset<L: Fn(u64, u32, u32) -> usize>(&self, lfo: &L) -> (r: usize)
        requires
            self.wf(),
            forall|t: u64, c: u32, a: u32| #[trigger] lfo.requires((t, c, a)),
        ensures
            self@.lag(*lfo, r as nat),
            r < self@.history.len(),
    {
        let sweep = lfo(self.elapsed, self.coefficient, self.amplitude);
        assert(lfo.ensures((self@.elapsed, self@.coefficient, self@.amplitude), sweep));
        self.clamp_offset(sweep)
    }

    /// One step of the flange: the sample at the swept lag is mixed into
    /// `sample`, and the result is returned and becomes the newest sample of
    /// the line.
    pub fn filter<L: Fn(u64, u32, u32) -> usize, M: Fn(u32, u32, u32) -> u32>(
        &mut self,
        sample: u32,
        lfo: &L,
        mix: &M,
    ) -> (y: u32)
        requires
            old(self).wf(),
            forall|t: u64, c: u32, a: u32| #[trigger] lfo.requires((t, c, a)),
            forall|x: u32, h: u32, g: u32| #[trigger] mix.requires((x, h, g)),
        ensures
            final(self).wf(),
            old(self)@.output(sample, *lfo, *mix, y),
            final(self)@ == old(self)@.written(y).ticked(),
    {
        let reverse_offset = self.offset(lfo);
        let last = self.read_buffer(reverse_offset);
        let result = mix(sample, last, self.decay);
        self.write_buffer(result);
        if self.elapsed < u64::MAX {
            self.elapsed += 1;
        }
        result
    }
}

} // verus!
