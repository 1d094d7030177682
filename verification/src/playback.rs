//! Playback planning: which backend invocations a playback request fans out
//! to, whether a pitched copy is needed first, and how the outcomes of the
//! invocations aggregate.
use vstd::prelude::*;

verus! {

/// Where audio should be played back.
#[derive(Clone, Copy, PartialEq, Eq, Structural, Debug)]
pub enum PlaybackSink {
    Default,
    Mixer,
    Both,
}

impl PlaybackSink {
    /// The cycle a press of the sink encoder walks through.
    pub open spec fn spec_cycled(self) -> PlaybackSink {
        match self {
            PlaybackSink::Default => PlaybackSink::Mixer,
            PlaybackSink::Mixer => PlaybackSink::Both,
            PlaybackSink::Both => PlaybackSink::Default,
        }
    }

    /// Default -> Mixer -> Both -> Default.
    pub fn cycled(self) -> (next: PlaybackSink)
        ensures
            next == self.spec_cycled(),
    {
        match self {
            PlaybackSink::Default => PlaybackSink::Mixer,
            PlaybackSink::Mixer => PlaybackSink::Both,
            PlaybackSink::Both => PlaybackSink::Default,
        }
    }
}

/// One concrete destination for one backend invocation.
#[derive(Clone, Copy, PartialEq, Eq, Structural, Debug)]
pub enum SinkTarget {
    DefaultOutput,
    MixerSink,
}

/// The independent backend invocations a sink choice fans out to; `Both`
/// fans out to two, run concurrently by the caller.
pub open spec fn sink_targets(sink: PlaybackSink) -> Seq<SinkTarget> {
    match sink {
        PlaybackSink::Default => seq![SinkTarget::DefaultOutput],
        PlaybackSink::Mixer => seq![SinkTarget::MixerSink],
        PlaybackSink::Both => seq![SinkTarget::DefaultOutput, SinkTarget::MixerSink],
    }
}

/// Everything the caller needs to carry out one playback request: whether
/// to produce a pitch-relabelled temporary copy first, and the invocations
/// to launch.
pub struct PlaybackPlan {
    pub needs_pitched_copy: bool,
    pub targets: Vec<SinkTarget>,
    pub volume_hundredths: u16,
}

/// Plans one playback request. A pitched copy is called for exactly when
/// the shift is nonzero: the smallest representable shift, one tenth of a
/// semitone, already clears the audibility threshold, and a zero shift
/// falls below it.
pub fn plan_playback(sink: PlaybackSink, volume_hundredths: u16, pitch_deci_semitones: i64) -> (p:
    PlaybackPlan)
    ensures
        p.needs_pitched_copy <==> pitch_deci_semitones != 0,
        p.targets@ == sink_targets(sink),
        p.volume_hundredths == volume_hundredths,
{
    let mut targets: Vec<SinkTarget> = Vec::new();
    match sink {
        PlaybackSink::Default => {
            targets.push(SinkTarget::DefaultOutput);
        },
        PlaybackSink::Mixer => {
            targets.push(SinkTarget::MixerSink);
        },
        PlaybackSink::Both => {
            targets.push(SinkTarget::DefaultOutput);
            targets.push(SinkTarget::MixerSink);
        },
    }
    assert(targets@ =~= sink_targets(sink));
    PlaybackPlan { needs_pitched_copy: pitch_deci_semitones != 0, targets, volume_hundredths }
}

/// A fan-out succeeded only if every invocation did.
pub open spec fn all_succeeded(results: Seq<bool>) -> bool {
    forall|i: int| 0 <= i < results.len() ==> results[i]
}

/// Aggregates the exit outcomes of the launched invocations: overall
/// success exactly when all succeeded, while a partial failure still lets
/// the successful invocations keep their effect.
pub fn aggregate_outcome(results: &Vec<bool>) -> (ok: bool)
    ensures
        ok == all_succeeded(results@),
{
    let mut i: usize = 0;
    let mut ok = true;
    while i < results.len()
        invariant
            0 <= i <= results@.len(),
            ok == (forall|j: int| 0 <= j < i ==> results@[j]),
        decreases results@.len() - i,
    {
        if !results[i] {
            ok = false;
        }
        i = i + 1;
    }
    ok
}

} // verus!
