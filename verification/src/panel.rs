//! The panel controller: a state machine over interaction mode, per-key
//! volume and pitch settings, the key being recorded, and the key selected
//! for deletion. Hardware events come in; display, recording, playback and
//! deletion actions come out. The caller performs the actions and reports
//! command and deletion results back.
use vstd::prelude::*;

use crate::playback::PlaybackSink;

verus! {

/// Number of sample keys on the panel.
pub const KEY_COUNT: u8 = 8;

/// Volume step per encoder tick, in hundredths.
pub const VOLUME_STEP: u16 = 5;

/// Upper volume bound, in hundredths (1.50).
pub const MAX_VOLUME: u16 = 150;

/// Default volume, in hundredths (1.00).
pub const DEFAULT_VOLUME: u16 = 100;

/// The dial that toggles the interaction mode when twisted and cycles
/// the playback sink when pressed.
pub const MODE_DIAL: u8 = 0;

/// The dial that adjusts the selected key's volume.
pub const VOLUME_DIAL: u8 = 1;

/// The dial that adjusts the selected key's pitch shift.
pub const PITCH_DIAL: u8 = 2;

/// The dial whose press deletes the selected key's sample.
pub const DELETE_DIAL: u8 = 3;

/// The two interaction modes of the panel.
#[derive(Clone, Copy, PartialEq, Eq, Structural, Debug)]
pub enum Mode {
    Playback,
    Edit,
}

impl Mode {
    pub open spec fn spec_toggled(self) -> Mode {
        match self {
            Mode::Playback => Mode::Edit,
            Mode::Edit => Mode::Playback,
        }
    }

    pub fn toggled(self) -> (m: Mode)
        ensures
            m == self.spec_toggled(),
    {
        match self {
            Mode::Playback => Mode::Edit,
            Mode::Edit => Mode::Playback,
        }
    }
}

/// A discrete hardware event from the panel.
#[derive(Clone, Copy, PartialEq, Eq, Structural, Debug)]
pub enum PanelEvent {
    EncoderTwist(u8, i32),
    EncoderDown(u8),
    ButtonDown(u8),
    ButtonUp(u8),
}

/// What a key's display should show: no sample, a playable sample, or a
/// pressed / active state.
#[derive(Clone, Copy, PartialEq, Eq, Structural, Debug)]
pub enum ButtonImage {
    Off,
    Play,
    Pressed,
}

/// One action the caller must perform. Display actions end with one
/// `CommitImages`; recording commands are issued to the capture engine and
/// their results reported back via `on_start_result` / `on_stop_result`;
/// `DeleteSample`'s result comes back via `on_delete_result`.
#[derive(Clone, Copy, PartialEq, Eq, Structural, Debug)]
pub enum PanelAction {
    ShowButton(u8, ButtonImage),
    ShowMode(Mode),
    CommitImages,
    IssueStart(u8),
    IssueStop(u8),
    PlaySample(u8, PlaybackSink, u16, i64),
    DeleteSample(u8),
}

/// Mathematical shape of the panel controller state.
#[verifier::ext_equal]
pub ghost struct PanelModel {
    pub mode: Mode,
    pub playback_sink: PlaybackSink,
    pub volumes: Seq<u16>,
    pub pitches: Seq<i64>,
    pub active_recording_key: Option<u8>,
    pub selected_for_delete: Option<u8>,
}

impl PanelModel {
    /// One setting per key, volumes within bounds, a selection only in
    /// Edit mode, and key indices in range.
    pub open spec fn wf(self) -> bool {
        &&& self.volumes.len() == KEY_COUNT
        &&& self.pitches.len() == KEY_COUNT
        &&& forall|i: int| 0 <= i < KEY_COUNT ==> #[trigger] self.volumes[i] <= MAX_VOLUME
        &&& self.mode is Playback ==> self.selected_for_delete is None
        &&& (self.selected_for_delete matches Some(k) ==> k < KEY_COUNT)
        &&& (self.active_recording_key matches Some(k) ==> k < KEY_COUNT)
    }
}

/// The panel as a session starts: playback mode, default sink, default
/// settings, nothing active, nothing selected.
pub open spec fn panel_init() -> PanelModel {
    PanelModel {
        mode: Mode::Playback,
        playback_sink: PlaybackSink::Default,
        volumes: Seq::new(KEY_COUNT as nat, |i: int| DEFAULT_VOLUME),
        pitches: Seq::new(KEY_COUNT as nat, |i: int| 0i64),
        active_recording_key: None,
        selected_for_delete: None,
    }
}

/// A volume adjustment, clamped to [0, MAX_VOLUME].
pub open spec fn clamped_volume(x: int) -> u16 {
    if x < 0 {
        0u16
    } else if x > MAX_VOLUME {
        MAX_VOLUME
    } else {
        x as u16
    }
}

/// A pitch adjustment, saturating at the representable range.
pub open spec fn saturated_pitch(x: int) -> i64 {
    if x > i64::MAX {
        i64::MAX
    } else if x < i64::MIN {
        i64::MIN
    } else {
        x as i64
    }
}

/// The state after one hardware event. `bound` says whether the event's
/// key currently has a recorded sample on disk; it is ignored for encoder
/// events.
pub open spec fn panel_after(m: PanelModel, ev: PanelEvent, bound: bool) -> PanelModel {
    match ev {
        PanelEvent::EncoderTwist(dial, ticks) => {
            if dial == MODE_DIAL {
                PanelModel { mode: m.mode.spec_toggled(), selected_for_delete: None, ..m }
            } else if dial == VOLUME_DIAL && m.mode is Edit && m.selected_for_delete is Some {
                let k = m.selected_for_delete->0;
                let v = clamped_volume(m.volumes[k as int] + ticks * VOLUME_STEP);
                PanelModel { volumes: m.volumes.update(k as int, v), ..m }
            } else if dial == PITCH_DIAL && m.mode is Edit && m.selected_for_delete is Some {
                let k = m.selected_for_delete->0;
                let p = saturated_pitch(m.pitches[k as int] + ticks);
                PanelModel { pitches: m.pitches.update(k as int, p), ..m }
            } else {
                m
            }
        },
        PanelEvent::EncoderDown(dial) => {
            if dial == MODE_DIAL {
                PanelModel { playback_sink: m.playback_sink.spec_cycled(), ..m }
            } else if dial == DELETE_DIAL && m.mode is Edit && m.selected_for_delete is Some {
                PanelModel { selected_for_delete: None, ..m }
            } else {
                m
            }
        },
        PanelEvent::ButtonDown(key) => {
            if key >= KEY_COUNT {
                m
            } else if m.mode is Playback {
                m
            } else {
                // Edit mode: a press on a bound key toggles the selection.
                if !bound {
                    m
                } else if m.selected_for_delete == Some(key) {
                    PanelModel { selected_for_delete: None, ..m }
                } else {
                    PanelModel { selected_for_delete: Some(key), ..m }
                }
            }
        },
        PanelEvent::ButtonUp(key) => m,
    }
}

/// The actions one hardware event calls for.
pub open spec fn panel_actions(m: PanelModel, ev: PanelEvent, bound: bool) -> Seq<PanelAction> {
    match ev {
        PanelEvent::EncoderTwist(dial, ticks) => {
            if dial == MODE_DIAL {
                let shown = seq![
                    PanelAction::ShowMode(m.mode.spec_toggled()),
                    PanelAction::CommitImages,
                ];
                if m.mode is Edit && m.selected_for_delete is Some {
                    seq![
                        PanelAction::ShowButton(m.selected_for_delete->0, ButtonImage::Play),
                    ] + shown
                } else {
                    shown
                }
            } else {
                Seq::empty()
            }
        },
        PanelEvent::EncoderDown(dial) => {
            if dial == DELETE_DIAL && m.mode is Edit && m.selected_for_delete is Some {
                seq![PanelAction::DeleteSample(m.selected_for_delete->0)]
            } else {
                Seq::empty()
            }
        },
        PanelEvent::ButtonDown(key) => {
            if key >= KEY_COUNT {
                Seq::empty()
            } else if m.mode is Playback {
                if bound {
                    seq![
                        PanelAction::ShowButton(key, ButtonImage::Pressed),
                        PanelAction::CommitImages,
                    ]
                } else {
                    seq![PanelAction::IssueStart(key)]
                }
            } else {
                if !bound {
                    Seq::empty()
                } else if m.selected_for_delete == Some(key) {
                    seq![
                        PanelAction::ShowButton(key, ButtonImage::Play),
                        PanelAction::CommitImages,
                    ]
                } else if m.selected_for_delete is Some {
                    seq![
                        PanelAction::ShowButton(m.selected_for_delete->0, ButtonImage::Play),
                        PanelAction::ShowButton(key, ButtonImage::Pressed),
                        PanelAction::CommitImages,
                    ]
                } else {
                    seq![
                        PanelAction::ShowButton(key, ButtonImage::Pressed),
                        PanelAction::CommitImages,
                    ]
                }
            }
        },
        PanelEvent::ButtonUp(key) => {
            if key >= KEY_COUNT {
                Seq::empty()
            } else if m.mode is Playback {
                if m.active_recording_key == Some(key) {
                    seq![PanelAction::IssueStop(key)]
                } else if bound {
                    seq![
                        PanelAction::PlaySample(
                            key,
                            m.playback_sink,
                            m.volumes[key as int],
                            m.pitches[key as int],
                        ),
                        PanelAction::ShowButton(key, ButtonImage::Play),
                        PanelAction::CommitImages,
                    ]
                } else {
                    Seq::empty()
                }
            } else {
                Seq::empty()
            }
        },
    }
}

/// The state after the capture engine answered an issued `Start`.
pub open spec fn start_result_after(m: PanelModel, key: u8, accepted: bool) -> PanelModel {
    if accepted && key < KEY_COUNT {
        PanelModel { active_recording_key: Some(key), ..m }
    } else {
        m
    }
}

/// The actions a `Start` answer calls for.
pub open spec fn start_result_actions(m: PanelModel, key: u8, accepted: bool) -> Seq<
    PanelAction,
> {
    if accepted && key < KEY_COUNT {
        seq![PanelAction::ShowButton(key, ButtonImage::Pressed), PanelAction::CommitImages]
    } else {
        Seq::empty()
    }
}

/// The state after the capture engine answered an issued `Stop`.
pub open spec fn stop_result_after(m: PanelModel, key: u8, accepted: bool) -> PanelModel {
    if accepted && m.active_recording_key == Some(key) {
        PanelModel { active_recording_key: None, ..m }
    } else {
        m
    }
}

/// The actions a `Stop` answer calls for.
pub open spec fn stop_result_actions(m: PanelModel, key: u8, accepted: bool) -> Seq<PanelAction> {
    if accepted && m.active_recording_key == Some(key) {
        seq![PanelAction::ShowButton(key, ButtonImage::Play), PanelAction::CommitImages]
    } else {
        Seq::empty()
    }
}

/// The state after a requested deletion finished: on success the key's
/// settings return to their defaults.
pub open spec fn delete_result_after(m: PanelModel, key: u8, success: bool) -> PanelModel {
    if success && key < KEY_COUNT {
        PanelModel {
            volumes: m.volumes.update(key as int, DEFAULT_VOLUME),
            pitches: m.pitches.update(key as int, 0i64),
            ..m
        }
    } else {
        m
    }
}

/// The actions a finished deletion calls for: the key's display falls back
/// to `Off` on success and to `Play` on failure.
pub open spec fn delete_result_actions(m: PanelModel, key: u8, success: bool) -> Seq<
    PanelAction,
> {
    if key < KEY_COUNT {
        if success {
            seq![PanelAction::ShowButton(key, ButtonImage::Off), PanelAction::CommitImages]
        } else {
            seq![PanelAction::ShowButton(key, ButtonImage::Play), PanelAction::CommitImages]
        }
    } else {
        Seq::empty()
    }
}

/// The panel controller state, owned by one event-processing sequence.
pub struct PanelState {
    mode: Mode,
    playback_sink: PlaybackSink,
    volumes: Vec<u16>,
    pitches: Vec<i64>,
    active_recording_key: Option<u8>,
    selected_for_delete: Option<u8>,
}

impl View for PanelState {
    type V = PanelModel;

    closed spec fn view(&self) -> PanelModel {
        PanelModel {
            mode: self.mode,
            playback_sink: self.playback_sink,
            volumes: self.volumes@,
            pitches: self.pitches@,
            active_recording_key: self.active_recording_key,
            selected_for_delete: self.selected_for_delete,
        }
    }
}

impl PanelState {
    pub fn new() -> (p: PanelState)
        ensures
            p@ == panel_init(),
            p@.wf(),
    {
        let mut volumes: Vec<u16> = Vec::new();
        let mut pitches: Vec<i64> = Vec::new();
        let mut i: u8 = 0;
        while i < KEY_COUNT
            invariant
                i <= KEY_COUNT,
                volumes@.len() == i,
                pitches@.len() == i,
                forall|j: int| 0 <= j < i ==> #[trigger] volumes@[j] == DEFAULT_VOLUME,
                forall|j: int| 0 <= j < i ==> #[trigger] pitches@[j] == 0i64,
            decreases KEY_COUNT - i,
        {
            volumes.push(DEFAULT_VOLUME);
            pitches.push(0i64);
            i = i + 1;
        }
        let p = PanelState {
            mode: Mode::Playback,
            playback_sink: PlaybackSink::Default,
            volumes,
            pitches,
            active_recording_key: None,
            selected_for_delete: None,
        };
        proof {
            assert(p@.volumes =~= panel_init().volumes);
            assert(p@.pitches =~= panel_init().pitches);
        }
        p
    }

    pub fn mode(&self) -> (m: Mode)
        ensures
            m == self@.mode,
    {
        self.mode
    }

    pub fn playback_sink(&self) -> (s: PlaybackSink)
        ensures
            s == self@.playback_sink,
    {
        self.playback_sink
    }

    pub fn active_recording_key(&self) -> (k: Option<u8>)
        ensures
            k == self@.active_recording_key,
    {
        self.active_recording_key
    }

    pub fn selected_for_delete(&self) -> (k: Option<u8>)
        ensures
            k == self@.selected_for_delete,
    {
        self.selected_for_delete
    }

    /// The key's volume in hundredths; 100 is the default.
    pub fn volume_of(&self, key: u8) -> (v: u16)
        requires
            key < KEY_COUNT,
            self@.wf(),
        ensures
            v == self@.volumes[key as int],
    {
        self.volumes[key as usize]
    }

    /// The key's pitch shift in tenths of a semitone; 0 is the default.
    pub fn pitch_of(&self, key: u8) -> (p: i64)
        requires
            key < KEY_COUNT,
            self@.wf(),
        ensures
            p == self@.pitches[key as int],
    {
        self.pitches[key as usize]
    }

    /// Feeds one hardware event through the state machine. `bound` says
    /// whether the event's key currently has a recorded sample.
    pub fn on_event(&mut self, ev: PanelEvent, bound: bool) -> (actions: Vec<PanelAction>)
        requires
            old(self)@.wf(),
        ensures
            final(self)@ == panel_after(old(self)@, ev, bound),
            actions@ == panel_actions(old(self)@, ev, bound),
            final(self)@.wf(),
    {
        let mut actions: Vec<PanelAction> = Vec::new();
        match ev {
            PanelEvent::EncoderTwist(dial, ticks) => {
                if dial == MODE_DIAL {
                    if self.mode == Mode::Edit {
                        if let Some(k) = self.selected_for_delete {
                            actions.push(PanelAction::ShowButton(k, ButtonImage::Play));
                        }
                    }
                    self.mode = self.mode.toggled();
                    self.selected_for_delete = None;
                    actions.push(PanelAction::ShowMode(self.mode));
                    actions.push(PanelAction::CommitImages);
                } else if dial == VOLUME_DIAL && self.mode == Mode::Edit {
                    if let Some(k) = self.selected_for_delete {
                        let raw: i64 = self.volumes[k as usize] as i64 + (ticks as i64) * (
                        VOLUME_STEP as i64);
                        let clamped: u16 = if raw < 0 {
                            0
                        } else if raw > MAX_VOLUME as i64 {
                            MAX_VOLUME
                        } else {
                            raw as u16
                        };
                        self.volumes.set(k as usize, clamped);
                    }
                } else if dial == PITCH_DIAL && self.mode == Mode::Edit {
                    if let Some(k) = self.selected_for_delete {
                        let updated: i64 = match self.pitches[k as usize].checked_add(
                            ticks as i64,
                        ) {
                            Some(v) => v,
                            None => if ticks > 0 {
                                i64::MAX
                            } else {
                                i64::MIN
                            },
                        };
                        self.pitches.set(k as usize, updated);
                    }
                }
            },
            PanelEvent::EncoderDown(dial) => {
                if dial == MODE_DIAL {
                    self.playback_sink = self.playback_sink.cycled();
                } else if dial == DELETE_DIAL && self.mode == Mode::Edit {
                    if let Some(k) = self.selected_for_delete {
                        self.selected_for_delete = None;
                        actions.push(PanelAction::DeleteSample(k));
                    }
                }
            },
            PanelEvent::ButtonDown(key) => {
                if key < KEY_COUNT {
                    match self.mode {
                        Mode::Playback => {
                            if bound {
                                actions.push(PanelAction::ShowButton(key, ButtonImage::Pressed));
                                actions.push(PanelAction::CommitImages);
                            } else {
                                actions.push(PanelAction::IssueStart(key));
                            }
                        },
                        Mode::Edit => {
                            if bound {
                                match self.selected_for_delete {
                                    Some(prev) => {
                                        if prev == key {
                                            self.selected_for_delete = None;
                                            actions.push(
                                                PanelAction::ShowButton(key, ButtonImage::Play),
                                            );
                                            actions.push(PanelAction::CommitImages);
                                        } else {
                                            self.selected_for_delete = Some(key);
                                            actions.push(
                                                PanelAction::ShowButton(prev, ButtonImage::Play),
                                            );
                                            actions.push(
                                                PanelAction::ShowButton(key, ButtonImage::Pressed),
                                            );
                                            actions.push(PanelAction::CommitImages);
                                        }
                                    },
                                    None => {
                                        self.selected_for_delete = Some(key);
                                        actions.push(
                                            PanelAction::ShowButton(key, ButtonImage::Pressed),
                                        );
                                        actions.push(PanelAction::CommitImages);
                                    },
                                }
                            }
                        },
                    }
                }
            },
            PanelEvent::ButtonUp(key) => {
                if key < KEY_COUNT {
                    if self.mode == Mode::Playback {
                        let is_active = match self.active_recording_key {
                            Some(a) => a == key,
                            None => false,
                        };
                        if is_active {
                            actions.push(PanelAction::IssueStop(key));
                        } else if bound {
                            actions.push(
                                PanelAction::PlaySample(
                                    key,
                                    self.playback_sink,
                                    self.volumes[key as usize],
                                    self.pitches[key as usize],
                                ),
                            );
                            actions.push(PanelAction::ShowButton(key, ButtonImage::Play));
                            actions.push(PanelAction::CommitImages);
                        }
                    }
                }
            },
        }
        proof {
            assert(self@ =~= panel_after(old(self)@, ev, bound));
            assert(actions@ =~= panel_actions(old(self)@, ev, bound));
        }
        actions
    }

    /// Reports the capture engine's answer to an issued `Start`.
    pub fn on_start_result(&mut self, key: u8, accepted: bool) -> (actions: Vec<PanelAction>)
        requires
            old(self)@.wf(),
        ensures
            final(self)@ == start_result_after(old(self)@, key, accepted),
            actions@ == start_result_actions(old(self)@, key, accepted),
            final(self)@.wf(),
    {
        let mut actions: Vec<PanelAction> = Vec::new();
        if accepted && key < KEY_COUNT {
            self.active_recording_key = Some(key);
            actions.push(PanelAction::ShowButton(key, ButtonImage::Pressed));
            actions.push(PanelAction::CommitImages);
        }
        proof {
            assert(self@ =~= start_result_after(old(self)@, key, accepted));
            assert(actions@ =~= start_result_actions(old(self)@, key, accepted));
        }
        actions
    }

    /// Reports the capture engine's answer to an issued `Stop`.
    pub fn on_stop_result(&mut self, key: u8, accepted: bool) -> (actions: Vec<PanelAction>)
        requires
            old(self)@.wf(),
        ensures
            final(self)@ == stop_result_after(old(self)@, key, accepted),
            actions@ == stop_result_actions(old(self)@, key, accepted),
            final(self)@.wf(),
    {
        let mut actions: Vec<PanelAction> = Vec::new();
        let is_active = match self.active_recording_key {
            Some(a) => a == key,
            None => false,
        };
        if accepted && is_active {
            self.active_recording_key = None;
            actions.push(PanelAction::ShowButton(key, ButtonImage::Play));
            actions.push(PanelAction::CommitImages);
        }
        proof {
            assert(self@ =~= stop_result_after(old(self)@, key, accepted));
            assert(actions@ =~= stop_result_actions(old(self)@, key, accepted));
        }
        actions
    }

    /// Reports whether a requested deletion succeeded.
    pub fn on_delete_result(&mut self, key: u8, success: bool) -> (actions: Vec<PanelAction>)
        requires
            old(self)@.wf(),
        ensures
            final(self)@ == delete_result_after(old(self)@, key, success),
            actions@ == delete_result_actions(old(self)@, key, success),
            final(self)@.wf(),
    {
        let mut actions: Vec<PanelAction> = Vec::new();
        if key < KEY_COUNT {
            if success {
                self.volumes.set(key as usize, DEFAULT_VOLUME);
                self.pitches.set(key as usize, 0);
                actions.push(PanelAction::ShowButton(key, ButtonImage::Off));
                actions.push(PanelAction::CommitImages);
            } else {
                actions.push(PanelAction::ShowButton(key, ButtonImage::Play));
                actions.push(PanelAction::CommitImages);
            }
        }
        proof {
            assert(self@ =~= delete_result_after(old(self)@, key, success));
            assert(actions@ =~= delete_result_actions(old(self)@, key, success));
        }
        actions
    }
}

/// The letter naming a key's slot: the first key records to slot A.
pub open spec fn key_letter(key: u8) -> char
    recommends
        key < KEY_COUNT,
{
    if key == 0 {
        'A'
    } else if key == 1 {
        'B'
    } else if key == 2 {
        'C'
    } else if key == 3 {
        'D'
    } else if key == 4 {
        'E'
    } else if key == 5 {
        'F'
    } else if key == 6 {
        'G'
    } else {
        'H'
    }
}

/// The deterministic file name a key records to, inside the storage
/// directory.
pub open spec fn recording_file_name_text(key: u8) -> Seq<char>
    recommends
        key < KEY_COUNT,
{
    seq!['r', 'e', 'c', 'o', 'r', 'd', 'i', 'n', 'g', '_', key_letter(key), '.', 'w', 'a', 'v']
}

/// The file name a key records to: `recording_A.wav` for the first key,
/// and so on through the key count.
pub fn recording_file_name(key: u8) -> (name: String)
    requires
        key < KEY_COUNT,
    ensures
        name@ == recording_file_name_text(key),
{
    let letter: char = if key == 0 {
        'A'
    } else if key == 1 {
        'B'
    } else if key == 2 {
        'C'
    } else if key == 3 {
        'D'
    } else if key == 4 {
        'E'
    } else if key == 5 {
        'F'
    } else if key == 6 {
        'G'
    } else {
        'H'
    };
    let mut chars: Vec<char> = Vec::new();
    chars.push('r');
    chars.push('e');
    chars.push('c');
    chars.push('o');
    chars.push('r');
    chars.push('d');
    chars.push('i');
    chars.push('n');
    chars.push('g');
    chars.push('_');
    chars.push(letter);
    chars.push('.');
    chars.push('w');
    chars.push('a');
    chars.push('v');
    proof {
        assert(chars@ =~= recording_file_name_text(key));
    }
    crate::wire::string_from_chars(chars)
}

/// Every event preserves well-formedness.
pub proof fn lemma_panel_wf_preserved(m: PanelModel, ev: PanelEvent, bound: bool)
    ensures
        m.wf() ==> panel_after(m, ev, bound).wf(),
{
}

/// Law: toggling the mode out of Edit while a key is selected clears the
/// selection and restores that key's display, and by the time the mode is
/// back in Playback no selection remains.
pub proof fn lemma_mode_roundtrip_clears_selection(
    m: PanelModel,
    k: u8,
    t1: i32,
    t2: i32,
    b1: bool,
    b2: bool,
)
    requires
        m.wf(),
        m.mode is Playback,
        k < KEY_COUNT,
    ensures
        ({
            let in_edit = panel_after(m, PanelEvent::EncoderTwist(MODE_DIAL, t1), b1);
            let selected = panel_after(in_edit, PanelEvent::ButtonDown(k), true);
            let back = panel_after(selected, PanelEvent::EncoderTwist(MODE_DIAL, t2), b2);
            &&& selected.selected_for_delete == Some(k)
            &&& back.mode is Playback
            &&& back.selected_for_delete is None
            &&& panel_actions(selected, PanelEvent::EncoderTwist(MODE_DIAL, t2), b2).contains(
                PanelAction::ShowButton(k, ButtonImage::Play),
            )
        }),
{
    let in_edit = panel_after(m, PanelEvent::EncoderTwist(MODE_DIAL, t1), b1);
    let selected = panel_after(in_edit, PanelEvent::ButtonDown(k), true);
    let acts = panel_actions(selected, PanelEvent::EncoderTwist(MODE_DIAL, t2), b2);
    assert(acts[0] == PanelAction::ShowButton(k, ButtonImage::Play));
}

} // verus!
