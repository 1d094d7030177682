//! The capture engine: a two-state machine (`Listening` / `Recording`) that
//! owns the negotiated audio format and the sample buffer, and answers
//! Start / Stop / Status commands with exactly one response each.
use vstd::prelude::*;

use crate::AudioCommand;
use crate::AudioResponse;
use crate::CmdModel;
use crate::RespModel;

verus! {

/// The negotiated stream format: fixed once a stream is up.
#[derive(Clone, Copy, PartialEq, Eq, Structural, Debug)]
pub struct AudioFormat {
    pub sample_rate: u32,
    pub channel_count: u16,
}

/// Idle and discarding samples, or recording to one destination path.
pub enum CaptureState {
    Listening,
    Recording(String),
}

/// One recorded sample, stored as the bit pattern of a 32-bit IEEE-754
/// float, exactly as the capture stream delivers it.
pub type SampleBits = u32;

/// What a successful `Stop` hands over for writing: the taken buffer, the
/// format it was recorded under, and the destination path.
pub struct SaveRequest {
    pub samples: Vec<SampleBits>,
    pub format: AudioFormat,
    pub path: String,
}

/// Mathematical shape of a `SaveRequest`.
#[verifier::ext_equal]
pub ghost struct SaveModel {
    pub samples: Seq<SampleBits>,
    pub format: AudioFormat,
    pub path: Seq<char>,
}

impl View for SaveRequest {
    type V = SaveModel;

    open spec fn view(&self) -> SaveModel {
        SaveModel { samples: self.samples@, format: self.format, path: self.path@ }
    }
}

/// Mathematical shape of the capture engine: the format if negotiated, the
/// destination path if recording, and the buffered samples.
#[verifier::ext_equal]
pub ghost struct EngineModel {
    pub format: Option<AudioFormat>,
    pub recording: Option<Seq<char>>,
    pub buffer: Seq<SampleBits>,
}

impl EngineModel {
    /// A recording is only ever in progress after a format was negotiated.
    pub open spec fn wf(self) -> bool {
        self.recording is Some ==> self.format is Some
    }
}

/// The engine as it starts: no format, listening, empty buffer.
pub open spec fn engine_init() -> EngineModel {
    EngineModel { format: None, recording: None, buffer: Seq::empty() }
}

/// State after one command: an accepted `Start` clears the buffer and moves
/// to recording; an accepted `Stop` takes the buffer and moves to listening;
/// a refused command and `Status` change nothing.
pub open spec fn engine_after(m: EngineModel, c: CmdModel) -> EngineModel {
    match c {
        CmdModel::Start(p) => {
            if m.format is Some && m.recording is None {
                EngineModel { recording: Some(p), buffer: Seq::empty(), ..m }
            } else {
                m
            }
        },
        CmdModel::Stop => {
            if m.recording is Some {
                EngineModel { recording: None, buffer: Seq::empty(), ..m }
            } else {
                m
            }
        },
        CmdModel::Status => m,
    }
}

/// The textual state description that `Status` reports.
pub open spec fn status_text(m: EngineModel) -> Seq<char> {
    match m.recording {
        None => "Listening"@,
        Some(p) => "Recording "@ + p,
    }
}

/// The one response a command earns: guard refusals are structured errors,
/// never failures.
pub open spec fn engine_response(m: EngineModel, c: CmdModel) -> RespModel {
    match c {
        CmdModel::Start(_) => {
            if m.format is None {
                RespModel::Error("Format not known"@)
            } else if m.recording is Some {
                RespModel::Error("Already recording"@)
            } else {
                RespModel::Accepted
            }
        },
        CmdModel::Stop => {
            if m.recording is Some {
                RespModel::Accepted
            } else {
                RespModel::Error("Not recording"@)
            }
        },
        CmdModel::Status => RespModel::Status(status_text(m)),
    }
}

/// What a command hands to the recording writer: only an accepted `Stop`
/// does, and it hands over exactly the buffered samples, the negotiated
/// format, and the destination chosen at `Start`.
pub open spec fn engine_saved(m: EngineModel, c: CmdModel) -> Option<SaveModel> {
    match c {
        CmdModel::Stop => {
            if m.recording is Some && m.format is Some {
                Some(SaveModel { samples: m.buffer, format: m.format->0, path: m.recording->0 })
            } else {
                None
            }
        },
        _ => None,
    }
}

/// A format notice from the stream: stored while listening, ignored while a
/// recording is in progress so the recording keeps the format it began with.
pub open spec fn format_negotiated(m: EngineModel, f: AudioFormat) -> EngineModel {
    if m.recording is Some {
        m
    } else {
        EngineModel { format: Some(f), ..m }
    }
}

/// A chunk delivered by the stream: appended while recording, discarded
/// while listening.
pub open spec fn samples_delivered(m: EngineModel, chunk: Seq<SampleBits>) -> EngineModel {
    if m.recording is Some {
        EngineModel { buffer: m.buffer + chunk, ..m }
    } else {
        m
    }
}

/// The state after a whole sequence of commands, applied in order.
pub open spec fn engine_after_all(m: EngineModel, cmds: Seq<CmdModel>) -> EngineModel
    decreases cmds.len(),
{
    if cmds.len() == 0 {
        m
    } else {
        engine_after_all(engine_after(m, cmds[0]), cmds.drop_first())
    }
}

/// Every command preserves well-formedness.
pub proof fn lemma_wf_preserved(m: EngineModel, c: CmdModel)
    ensures
        m.wf() ==> engine_after(m, c).wf(),
{
}

/// Every sequence of commands preserves well-formedness.
pub proof fn lemma_wf_preserved_all(m: EngineModel, cmds: Seq<CmdModel>)
    ensures
        m.wf() ==> engine_after_all(m, cmds).wf(),
    decreases cmds.len(),
{
    if cmds.len() > 0 {
        lemma_wf_preserved(m, cmds[0]);
        lemma_wf_preserved_all(engine_after(m, cmds[0]), cmds.drop_first());
    }
}

/// Law: after any sequence of commands from the initial state, the engine
/// records to at most one destination: two destinations it reports
/// recording to are the same.
pub proof fn lemma_single_destination(cmds: Seq<CmdModel>, d1: Seq<char>, d2: Seq<char>)
    requires
        engine_after_all(engine_init(), cmds).recording == Some(d1),
        engine_after_all(engine_init(), cmds).recording == Some(d2),
    ensures
        d1 == d2,
{
}

/// Law: whenever no format is known, `Start` is refused with the format
/// guard and changes nothing, regardless of any prior state.
pub proof fn lemma_start_needs_format(m: EngineModel, p: Seq<char>)
    requires
        m.format is None,
    ensures
        engine_response(m, CmdModel::Start(p)) == RespModel::Error("Format not known"@),
        engine_after(m, CmdModel::Start(p)) == m,
{
}

/// Law: a `Start` followed at once by a `Stop`, with no samples delivered
/// between them, saves an empty buffer and returns the engine to listening.
pub proof fn lemma_start_stop_empty(m: EngineModel, p: Seq<char>)
    requires
        m.format is Some,
        m.recording is None,
    ensures
        ({
            let started = engine_after(m, CmdModel::Start(p));
            &&& engine_saved(started, CmdModel::Stop) matches Some(sm) && sm.samples.len() == 0
            &&& engine_after(started, CmdModel::Stop).recording is None
        }),
{
}

/// The state after a whole sequence of delivered chunks, in order.
pub open spec fn all_samples_delivered(m: EngineModel, chunks: Seq<Seq<SampleBits>>) -> EngineModel
    decreases chunks.len(),
{
    if chunks.len() == 0 {
        m
    } else {
        all_samples_delivered(samples_delivered(m, chunks[0]), chunks.drop_first())
    }
}

/// Law: while recording, chunks of a uniform size grow the buffer by
/// exactly their total, and the destination and format stay put; a `Stop`
/// then saves exactly that many samples to the destination chosen at
/// `Start`.
pub proof fn lemma_recording_session(m: EngineModel, chunks: Seq<Seq<SampleBits>>, s: nat)
    requires
        m.wf(),
        m.recording is Some,
        forall|i: int| 0 <= i < chunks.len() ==> #[trigger] chunks[i].len() == s,
    ensures
        ({
            let after = all_samples_delivered(m, chunks);
            &&& after.recording == m.recording
            &&& after.format == m.format
            &&& after.buffer.len() == m.buffer.len() + chunks.len() * s
            &&& engine_saved(after, CmdModel::Stop) matches Some(sm)
                && sm.samples.len() == m.buffer.len() + chunks.len() * s
                && sm.path == m.recording->0
        }),
    decreases chunks.len(),
{
    if chunks.len() > 0 {
        let delivered = samples_delivered(m, chunks[0]);
        assert(forall|i: int|
            0 <= i < chunks.drop_first().len() ==> #[trigger] chunks.drop_first()[i].len() == s);
        lemma_recording_session(delivered, chunks.drop_first(), s);
        assert((chunks.len() - 1) * s + s == chunks.len() * s) by (nonlinear_arith);
    }
}

/// The capture engine. Commands arrive through `handle`; the stream calls
/// `on_format_negotiated` and `on_samples`.
pub struct CaptureEngine {
    format: Option<AudioFormat>,
    state: CaptureState,
    buffer: Vec<SampleBits>,
}

impl View for CaptureEngine {
    type V = EngineModel;

    closed spec fn view(&self) -> EngineModel {
        EngineModel {
            format: self.format,
            recording: match self.state {
                CaptureState::Listening => None,
                CaptureState::Recording(p) => Some(p@),
            },
            buffer: self.buffer@,
        }
    }
}

impl CaptureEngine {
    pub fn new() -> (e: CaptureEngine)
        ensures
            e@ == engine_init(),
    {
        CaptureEngine { format: None, state: CaptureState::Listening, buffer: Vec::new() }
    }

    /// Called once per (re)negotiation from the stream side.
    pub fn on_format_negotiated(&mut self, format: AudioFormat)
        ensures
            final(self)@ == format_negotiated(old(self)@, format),
    {
        match &self.state {
            CaptureState::Recording(_) => {},
            CaptureState::Listening => {
                self.format = Some(format);
            },
        }
    }

    /// Called at stream cadence with one chunk of samples.
    pub fn on_samples(&mut self, chunk: &Vec<SampleBits>)
        ensures
            final(self)@ == samples_delivered(old(self)@, chunk@),
    {
        match &self.state {
            CaptureState::Recording(_) => {
                self.buffer.extend_from_slice(chunk.as_slice());
            },
            CaptureState::Listening => {},
        }
    }

    /// The `Status` description: `Listening`, or `Recording ` followed by
    /// the destination path.
    pub fn status_description(&self) -> (s: String)
        ensures
            s@ == status_text(self@),
    {
        match &self.state {
            CaptureState::Listening => String::from_str("Listening"),
            CaptureState::Recording(p) => String::from_str("Recording ").concat(p.as_str()),
        }
    }

    /// Handles one command and returns its one response, plus the save
    /// request that an accepted `Stop` hands to the recording writer.
    pub fn handle(&mut self, cmd: AudioCommand) -> (r: (AudioResponse, Option<SaveRequest>))
        requires
            old(self)@.wf(),
        ensures
            final(self)@ == engine_after(old(self)@, cmd@),
            r.0@ == engine_response(old(self)@, cmd@),
            (match engine_saved(old(self)@, cmd@) {
                None => r.1 is None,
                Some(sm) => r.1 matches Some(s) && s@ == sm,
            }),
            final(self)@.wf(),
    {
        match cmd {
            AudioCommand::Start(path) => {
                if self.format.is_none() {
                    (AudioResponse::Error(String::from_str("Format not known")), None)
                } else {
                    match &self.state {
                        CaptureState::Recording(_) => {
                            (AudioResponse::Error(String::from_str("Already recording")), None)
                        },
                        CaptureState::Listening => {
                            self.state = CaptureState::Recording(path);
                            self.buffer.clear();
                            (AudioResponse::Accepted, None)
                        },
                    }
                }
            },
            AudioCommand::Stop => {
                let mut taken_state = CaptureState::Listening;
                core::mem::swap(&mut taken_state, &mut self.state);
                match taken_state {
                    CaptureState::Recording(path) => {
                        let mut taken_buffer: Vec<SampleBits> = Vec::new();
                        core::mem::swap(&mut taken_buffer, &mut self.buffer);
                        let format = self.format.unwrap();
                        let save = SaveRequest { samples: taken_buffer, format, path };
                        (AudioResponse::Accepted, Some(save))
                    },
                    CaptureState::Listening => {
                        (AudioResponse::Error(String::from_str("Not recording")), None)
                    },
                }
            },
            AudioCommand::Status => {
                (AudioResponse::Status(self.status_description()), None)
            },
        }
    }
}

} // verus!
