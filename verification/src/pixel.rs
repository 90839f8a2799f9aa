//! One cell of the image: where it sits on the screen and the running mean
//! of the colour samples folded into it.
use vstd::prelude::*;
use vstd::arithmetic::div_mod::lemma_div_nonincreasing;
use vstd::arithmetic::div_mod::lemma_div_pos_is_pos;
use crate::color::Rgb;

verus! {

/// An exact fraction `num / den` with a positive denominator.
#[derive(Clone, Copy, Debug, PartialEq, Eq, Structural)]
pub struct Ratio {
    pub num: i64,
    pub den: i64,
}

/// The mean of one channel after the `n`-th sample has been folded in:
/// the old mean moves towards the sample by the `n`-th part of their
/// distance, rounded towards the old mean.
pub open spec fn mean_step(old_mean: int, sample: int, n: int) -> int {
    if sample >= old_mean {
        old_mean + (sample - old_mean) / n
    } else {
        old_mean - (old_mean - sample) / n
    }
}

/// The mean colour after the `n`-th sample, channel by channel.
pub open spec fn mean_color(old_mean: Rgb, sample: Rgb, n: int) -> (int, int, int) {
    (
        mean_step(old_mean.r as int, sample.r as int, n),
        mean_step(old_mean.g as int, sample.g as int, n),
        mean_step(old_mean.b as int, sample.b as int, n),
    )
}

/// The new mean lies between the old mean and the sample, so it is a
/// byte whenever both of them are.
pub proof fn lemma_mean_step_between(old_mean: int, sample: int, n: int)
    requires
        n >= 1,
    ensures
        sample >= old_mean ==> old_mean <= mean_step(old_mean, sample, n) <= sample,
        sample <= old_mean ==> sample <= mean_step(old_mean, sample, n) <= old_mean,
{
    if sample >= old_mean {
        lemma_div_nonincreasing(sample - old_mean, n);
        lemma_div_pos_is_pos(sample - old_mean, n);
    } else {
        lemma_div_nonincreasing(old_mean - sample, n);
        lemma_div_pos_is_pos(old_mean - sample, n);
    }
}

/// The first sample becomes the mean, whatever stood there before.
pub proof fn lemma_mean_step_first(old_mean: int, sample: int)
    ensures
        mean_step(old_mean, sample, 1) == sample,
{
}

/// A sample equal to the mean leaves the mean where it is.
pub proof fn lemma_mean_step_fixed(mean: int, n: int)
    requires
        n >= 1,
    ensures
        mean_step(mean, mean, n) == mean,
{
}

/// The mean of one channel after a whole run of samples has been folded
/// in, first to last, starting from a cell without samples.
pub open spec fn running_mean(samples: Seq<int>) -> int
    decreases samples.len(),
{
    if samples.len() == 0 {
        0
    } else {
        mean_step(running_mean(samples.drop_last()), samples.last(), samples.len() as int)
    }
}

/// However many samples are folded in, the mean never leaves the range
/// the samples span.
pub proof fn lemma_running_mean_bounded(samples: Seq<int>, lo: int, hi: int)
    requires
        samples.len() > 0,
        forall|i: int| 0 <= i < samples.len() ==> lo <= #[trigger] samples[i] <= hi,
    ensures
        lo <= running_mean(samples) <= hi,
    decreases samples.len(),
{
    let earlier = samples.drop_last();
    let n = samples.len() as int;
    if n == 1 {
        lemma_mean_step_first(running_mean(earlier), samples.last());
    } else {
        assert forall|i: int| 0 <= i < earlier.len() implies lo <= #[trigger] earlier[i] <= hi by {
            assert(earlier[i] == samples[i]);
        }
        lemma_running_mean_bounded(earlier, lo, hi);
        lemma_mean_step_between(running_mean(earlier), samples.last(), n);
    }
}

fn fold_channel(old_mean: u8, sample: u8, n: u64) -> (r: u8)
    requires
        n >= 1,
    ensures
        r as int == mean_step(old_mean as int, sample as int, n as int),
{
    proof {
        lemma_mean_step_between(old_mean as int, sample as int, n as int);
    }
    if sample >= old_mean {
        let gap: u64 = (sample - old_mean) as u64;
        let step: u64 = gap / n;
        old_mean + step as u8
    } else {
        let gap: u64 = (old_mean - sample) as u64;
        let step: u64 = gap / n;
        old_mean - step as u8
    }
}

/// A cell of the pixel grid.
#[derive(Clone, Copy, Debug)]
pub struct Pixel {
    /// Horizontal screen coordinate.
    pub x: Ratio,
    /// Vertical screen coordinate.
    pub y: Ratio,
    /// The mean of the samples folded in so far; `None` before the first.
    pub color: Option<Rgb>,
    /// How many samples have been folded in.
    pub samples: u64,
}

impl Pixel {
    /// A cell is well formed when it has a colour exactly if it has
    /// received a sample, and both coordinates have positive denominators.
    pub open spec fn wf(&self) -> bool {
        &&& self.x.den > 0
        &&& self.y.den > 0
        &&& (self.color is None <==> self.samples == 0)
    }

    /// The mean colour as the fold rule reads it: black while no sample
    /// has arrived.
    pub open spec fn mean(&self) -> Rgb {
        match self.color {
            Some(c) => c,
            None => Rgb::black_spec(),
        }
    }

    /// A cell at the given screen coordinate that holds no sample yet.
    pub fn new(x: Ratio, y: Ratio) -> (p: Pixel)
        requires
            x.den > 0,
            y.den > 0,
        ensures
            p.wf(),
            p.x == x,
            p.y == y,
            p.color is None,
            p.samples == 0,
    {
        Pixel { x, y, color: None, samples: 0 }
    }

    /// Folds one colour sample into the running mean and returns the new
    /// mean, which is also stored in the cell.
    pub fn avg_colors(&mut self, sample: Rgb) -> (mean: Rgb)
        requires
            old(self).wf(),
            old(self).samples < u64::MAX,
        ensures
            final(self).wf(),
            final(self).x == old(self).x,
            final(self).y == old(self).y,
            final(self).samples == old(self).samples + 1,
            final(self).color == Some(mean),
            (mean.r as int, mean.g as int, mean.b as int) == mean_color(
                old(self).mean(),
                sample,
                old(self).samples + 1,
            ),
    {
        let n: u64 = self.samples + 1;
        let prev = match self.color {
            Some(c) => c,
            None => Rgb::black(),
        };
        let mean = Rgb {
            r: fold_channel(prev.r, sample.r, n),
            g: fold_channel(prev.g, sample.g, n),
            b: fold_channel(prev.b, sample.b, n),
        };
        self.color = Some(mean);
        self.samples = n;
        mean
    }
}

} // verus!
