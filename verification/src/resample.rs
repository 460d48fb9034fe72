//! The decisions of the resampling pipeline: gathering input samples into
//! chunks for the resampler, and which resampled samples are handed on, and
//! how, when the channel counts of input and output differ.

use vstd::prelude::*;

verus! {

/// The number of samples in `frames` frames of `channels` channels.
pub fn samples_in_frames(frames: usize, channels: usize) -> (n: usize)
    requires
        frames * channels <= usize::MAX,
    ensures
        n == frames * channels,
{
    frames * channels
}

/// What to do after one attempt to take an input sample.
#[derive(Debug, Clone, Copy, PartialEq, Eq, Structural)]
pub enum CollectAction {
    /// No sample was there: wait for the retry delay, then try again.
    Wait,
    /// The sample was kept; the chunk is not full yet.
    Collect,
    /// The sample was kept and the chunk is full: resample it.
    Process,
}

/// Counts the input samples gathered for the next resampler chunk.
#[derive(Debug)]
pub struct ChunkCollector {
    /// Samples gathered so far.
    pub collected: usize,
    /// Samples that make a full chunk.
    pub samples_to_read: usize,
}

impl ChunkCollector {
    /// The collector can take a sample: the chunk is not full, or nothing
    /// was gathered yet.
    pub open spec fn can_collect(&self) -> bool {
        self.collected < self.samples_to_read || self.collected == 0
    }

    /// A collector for chunks of `frames_to_read` frames of `channels`
    /// channels, with nothing gathered.
    pub fn new(frames_to_read: usize, channels: usize) -> (c: ChunkCollector)
        requires
            frames_to_read * channels <= usize::MAX,
        ensures
            c.collected == 0,
            c.samples_to_read == frames_to_read * channels,
            c.can_collect(),
    {
        ChunkCollector { collected: 0, samples_to_read: samples_in_frames(frames_to_read, channels) }
    }

    /// Records one attempt to take an input sample: `popped` tells whether a
    /// sample was there. The chunk is resampled as soon as it holds
    /// `samples_to_read` samples (or, for an empty chunk size, at once).
    pub fn on_pop(&mut self, popped: bool) -> (a: CollectAction)
        requires
            old(self).can_collect(),
        ensures
            final(self).samples_to_read == old(self).samples_to_read,
            !popped ==> a == CollectAction::Wait && final(self).collected == old(self).collected,
            popped ==> final(self).collected == old(self).collected + 1,
            popped ==> a == (if final(self).collected < final(self).samples_to_read {
                CollectAction::Collect
            } else {
                CollectAction::Process
            }),
            a == CollectAction::Collect ==> final(self).can_collect(),
    {
        if !popped {
            return CollectAction::Wait;
        }
        self.collected = self.collected + 1;
        if self.collected < self.samples_to_read {
            CollectAction::Collect
        } else {
            CollectAction::Process
        }
    }

    /// Starts the next chunk after one was resampled: nothing is gathered,
    /// and the resampler now asks for `frames_to_read` frames of `channels`
    /// channels.
    pub fn on_chunk_done(&mut self, frames_to_read: usize, channels: usize)
        requires
            frames_to_read * channels <= usize::MAX,
        ensures
            final(self).collected == 0,
            final(self).samples_to_read == frames_to_read * channels,
            final(self).can_collect(),
    {
        self.collected = 0;
        self.samples_to_read = samples_in_frames(frames_to_read, channels);
    }
}

/// How resampled audio is fitted to the output's channel count.
#[derive(Debug, Clone, Copy, PartialEq, Eq, Structural)]
pub enum ChannelConversion {
    /// Same channel count: samples pass through.
    Same,
    /// One channel in, two out: each sample goes to both.
    MonoToStereo,
    /// Two channels in, one out: each frame's two samples are averaged.
    StereoToMono,
    /// Any other pair: nothing is handed on.
    Unsupported,
}

/// The conversion used between `input_channels` and `output_channels`.
pub open spec fn conversion_for(input_channels: usize, output_channels: usize) -> ChannelConversion {
    if input_channels == output_channels {
        ChannelConversion::Same
    } else if input_channels == 1 && output_channels == 2 {
        ChannelConversion::MonoToStereo
    } else if input_channels == 2 && output_channels == 1 {
        ChannelConversion::StereoToMono
    } else {
        ChannelConversion::Unsupported
    }
}

/// Equal channel counts pass through; one channel in and two out is mono
/// to stereo; two in and one out is stereo to mono; every other pair is
/// unsupported.
pub proof fn law_conversion_cases(input_channels: usize, output_channels: usize)
    ensures
        input_channels == output_channels ==> conversion_for(input_channels, output_channels)
            == ChannelConversion::Same,
        input_channels == 1 && output_channels == 2 ==> conversion_for(
            input_channels,
            output_channels,
        ) == ChannelConversion::MonoToStereo,
        input_channels == 2 && output_channels == 1 ==> conversion_for(
            input_channels,
            output_channels,
        ) == ChannelConversion::StereoToMono,
        input_channels != output_channels && !(input_channels == 1 && output_channels == 2)
            && !(input_channels == 2 && output_channels == 1) ==> conversion_for(
            input_channels,
            output_channels,
        ) == ChannelConversion::Unsupported,
{
}

/// Picks the conversion between `input_channels` and `output_channels`.
pub fn channel_conversion(input_channels: usize, output_channels: usize) -> (c: ChannelConversion)
    ensures
        c == conversion_for(input_channels, output_channels),
{
    if input_channels == output_channels {
        ChannelConversion::Same
    } else if input_channels == 1 && output_channels == 2 {
        ChannelConversion::MonoToStereo
    } else if input_channels == 2 && output_channels == 1 {
        ChannelConversion::StereoToMono
    } else {
        ChannelConversion::Unsupported
    }
}

/// One hand-over of resampled audio to the output.
#[derive(Debug, Clone, Copy, PartialEq, Eq, Structural)]
pub enum PushStep {
    /// Hand on the sample at this index.
    Once(usize),
    /// Hand on the sample at this index, and once more if the first
    /// hand-over was accepted.
    Twice(usize),
    /// Hand on the mean of the samples at these two indices.
    Mean(usize, usize),
}

/// Whether a hand-over step hands its sample on once more, given whether
/// the first hand-over was accepted: only a `Twice` step does, and only
/// after an accepted first hand-over.
pub fn hands_on_again(step: PushStep, first_accepted: bool) -> (again: bool)
    ensures
        again == (step is Twice && first_accepted),
{
    match step {
        PushStep::Twice(_) => first_accepted,
        _ => false,
    }
}

/// The hand-overs for the first `written` resampled samples, in order.
pub open spec fn push_plan_spec(c: ChannelConversion, written: nat) -> Seq<PushStep> {
    match c {
        ChannelConversion::Same => Seq::new(written, |i: int| PushStep::Once(i as usize)),
        ChannelConversion::MonoToStereo => Seq::new(written, |i: int| PushStep::Twice(i as usize)),
        ChannelConversion::StereoToMono => Seq::new(
            written / 2,
            |i: int| PushStep::Mean((2 * i) as usize, (2 * i + 1) as usize),
        ),
        ChannelConversion::Unsupported => Seq::empty(),
    }
}

/// The plan hands the resampled samples on in the order the resampler wrote
/// them: step `i` of a pass-through or mono-to-stereo plan hands on sample
/// `i`, and step `i` of a stereo-to-mono plan averages samples `2 i` and
/// `2 i + 1`, the two channels of frame `i`; an unsupported pair hands on
/// nothing.
pub proof fn law_push_plan_in_order(c: ChannelConversion, written: nat)
    ensures
        c == ChannelConversion::Same ==> push_plan_spec(c, written).len() == written && forall|
            i: int,
        | 0 <= i < written ==> #[trigger] push_plan_spec(c, written)[i] == PushStep::Once(
            i as usize,
        ),
        c == ChannelConversion::MonoToStereo ==> push_plan_spec(c, written).len() == written
            && forall|i: int|
            0 <= i < written ==> #[trigger] push_plan_spec(c, written)[i] == PushStep::Twice(
                i as usize,
            ),
        c == ChannelConversion::StereoToMono ==> push_plan_spec(c, written).len() == written / 2
            && forall|i: int|
            0 <= i < written / 2 ==> #[trigger] push_plan_spec(c, written)[i] == PushStep::Mean(
                (2 * i) as usize,
                (2 * i + 1) as usize,
            ),
        c == ChannelConversion::Unsupported ==> push_plan_spec(c, written).len() == 0,
{
}

/// Lists the hand-overs for the first `written` resampled samples.
pub fn push_plan(c: ChannelConversion, written: usize) -> (p: Vec<PushStep>)
    ensures
        p@ == push_plan_spec(c, written as nat),
        c == ChannelConversion::Same ==> p@.len() == written && forall|i: int|
            0 <= i < written ==> #[trigger] p@[i] == PushStep::Once(i as usize),
        c == ChannelConversion::MonoToStereo ==> p@.len() == written && forall|i: int|
            0 <= i < written ==> #[trigger] p@[i] == PushStep::Twice(i as usize),
        c == ChannelConversion::StereoToMono ==> p@.len() == written / 2 && forall|i: int|
            0 <= i < written / 2 ==> #[trigger] p@[i] == PushStep::Mean(
                (2 * i) as usize,
                (2 * i + 1) as usize,
            ),
        c == ChannelConversion::Unsupported ==> p@.len() == 0,
{
    proof {
        law_push_plan_in_order(c, written as nat);
    }
    let mut p: Vec<PushStep> = Vec::new();
    match c {
        ChannelConversion::Same => {
            let mut i: usize = 0;
            while i < written
                invariant
                    i <= written,
                    p@ == Seq::new(i as nat, |k: int| PushStep::Once(k as usize)),
                decreases written - i,
            {
                p.push(PushStep::Once(i));
                i = i + 1;
                assert(p@ =~= Seq::new(i as nat, |k: int| PushStep::Once(k as usize)));
            }
        },
        ChannelConversion::MonoToStereo => {
            let mut i: usize = 0;
            while i < written
                invariant
                    i <= written,
                    p@ == Seq::new(i as nat, |k: int| PushStep::Twice(k as usize)),
                decreases written - i,
            {
                p.push(PushStep::Twice(i));
                i = i + 1;
                assert(p@ =~= Seq::new(i as nat, |k: int| PushStep::Twice(k as usize)));
            }
        },
        ChannelConversion::StereoToMono => {
            let pairs = written / 2;
            let mut i: usize = 0;
            while i < pairs
                invariant
                    pairs == written / 2,
                    i <= pairs,
                    p@ == Seq::new(
                        i as nat,
                        |k: int| PushStep::Mean((2 * k) as usize, (2 * k + 1) as usize),
                    ),
                decreases pairs - i,
            {
                p.push(PushStep::Mean(2 * i, 2 * i + 1));
                i = i + 1;
                assert(p@ =~= Seq::new(
                    i as nat,
                    |k: int| PushStep::Mean((2 * k) as usize, (2 * k + 1) as usize),
                ));
            }
        },
        ChannelConversion::Unsupported => {},
    }
    assert(p@ =~= push_plan_spec(c, written as nat));
    p
}

/// How many output samples a plan hands on when every hand-over is
/// accepted.
pub open spec fn pushed_count(p: Seq<PushStep>) -> nat
    decreases p.len(),
{
    if p.len() == 0 {
        0
    } else {
        pushed_count(p.drop_last()) + match p.last() {
            PushStep::Twice(_) => 2nat,
            _ => 1nat,
        }
    }
}

proof fn lemma_pushed_count_uniform(p: Seq<PushStep>, per_step: nat)
    requires
        forall|i: int|
            0 <= i < p.len() ==> (#[trigger] p[i] is Twice <==> per_step == 2) && (per_step == 1
                || per_step == 2),
    ensures
        pushed_count(p) == p.len() * per_step,
    decreases p.len(),
{
    if p.len() > 0 {
        lemma_pushed_count_uniform(p.drop_last(), per_step);
        assert(p.last() == p[p.len() - 1]);
        assert(p.len() * per_step == (p.len() - 1) * per_step + per_step) by (nonlinear_arith);
    }
}

/// Resampling `frames` frames keeps the frame count across the channel
/// conversion: when every hand-over is accepted, the plan for
/// `frames * input_channels` samples hands on `frames * output_channels`
/// samples, for each supported pair of channel counts, and every index it
/// reads lies below the number of samples written.
pub proof fn law_conversion_keeps_frames(frames: nat, input_channels: usize, output_channels: usize)
    requires
        conversion_for(input_channels, output_channels) != ChannelConversion::Unsupported,
        frames * input_channels <= usize::MAX,
    ensures
        pushed_count(
            push_plan_spec(
                conversion_for(input_channels, output_channels),
                (frames * input_channels) as nat,
            ),
        ) == frames * output_channels,
        forall|i: int|
            0 <= i < push_plan_spec(
                conversion_for(input_channels, output_channels),
                (frames * input_channels) as nat,
            ).len() ==> match #[trigger] push_plan_spec(
                conversion_for(input_channels, output_channels),
                (frames * input_channels) as nat,
            )[i] {
                PushStep::Once(k) => k < frames * input_channels,
                PushStep::Twice(k) => k < frames * input_channels,
                PushStep::Mean(k, l) => k < l < frames * input_channels,
            },
{
    let c = conversion_for(input_channels, output_channels);
    let n = (frames * input_channels) as nat;
    let p = push_plan_spec(c, n);
    match c {
        ChannelConversion::Same => {
            lemma_pushed_count_uniform(p, 1);
        },
        ChannelConversion::MonoToStereo => {
            lemma_pushed_count_uniform(p, 2);
            assert(frames * 1 == frames);
        },
        ChannelConversion::StereoToMono => {
            lemma_pushed_count_uniform(p, 1);
            assert((frames * 2) / 2 == frames);
            assert forall|i: int| 0 <= i < p.len() implies match #[trigger] p[i] {
                PushStep::Once(k) => k < n,
                PushStep::Twice(k) => k < n,
                PushStep::Mean(k, l) => k < l < n,
            } by {
                assert(n == 2 * frames);
                assert(2 * i + 1 < 2 * frames);
                assert(p[i] == PushStep::Mean((2 * i) as usize, (2 * i + 1) as usize));
            }
        },
        ChannelConversion::Unsupported => {},
    }
}

} // verus!
