use soundboard::panel::{
    recording_file_name, ButtonImage, Mode, PanelAction, PanelEvent, PanelState,
};
use soundboard::playback::PlaybackSink;

#[test]
fn mode_toggle_round_trip_clears_selection() {
    // Playback -> Edit, select a bound key, Edit -> Playback: the
    // selection is gone and the key's image is restored.
    let mut panel = PanelState::new();
    assert_eq!(panel.mode(), Mode::Playback);
    panel.on_event(PanelEvent::EncoderTwist(0, 1), false);
    assert_eq!(panel.mode(), Mode::Edit);
    panel.on_event(PanelEvent::ButtonDown(3), true);
    assert_eq!(panel.selected_for_delete(), Some(3));
    let actions = panel.on_event(PanelEvent::EncoderTwist(0, -1), false);
    assert_eq!(panel.mode(), Mode::Playback);
    assert_eq!(panel.selected_for_delete(), None);
    assert_eq!(
        actions,
        vec![
            PanelAction::ShowButton(3, ButtonImage::Play),
            PanelAction::ShowMode(Mode::Playback),
            PanelAction::CommitImages,
        ]
    );
}

#[test]
fn edit_select_adjust_and_delete() {
    // Edit mode, key 2 bound: select it, two volume ticks up reach 1.10,
    // the delete press clears the selection and the finished deletion
    // restores the defaults.
    let mut panel = PanelState::new();
    panel.on_event(PanelEvent::EncoderTwist(0, 1), false);
    let actions = panel.on_event(PanelEvent::ButtonDown(2), true);
    assert_eq!(
        actions,
        vec![
            PanelAction::ShowButton(2, ButtonImage::Pressed),
            PanelAction::CommitImages,
        ]
    );
    assert_eq!(panel.volume_of(2), 100);
    panel.on_event(PanelEvent::EncoderTwist(1, 2), false);
    assert_eq!(panel.volume_of(2), 110);
    let actions = panel.on_event(PanelEvent::EncoderDown(3), false);
    assert_eq!(actions, vec![PanelAction::DeleteSample(2)]);
    assert_eq!(panel.selected_for_delete(), None);
    let actions = panel.on_delete_result(2, true);
    assert_eq!(panel.volume_of(2), 100);
    assert_eq!(panel.pitch_of(2), 0);
    assert_eq!(
        actions,
        vec![
            PanelAction::ShowButton(2, ButtonImage::Off),
            PanelAction::CommitImages,
        ]
    );
}

#[test]
fn failed_delete_keeps_settings_and_play_image() {
    let mut panel = PanelState::new();
    panel.on_event(PanelEvent::EncoderTwist(0, 1), false);
    panel.on_event(PanelEvent::ButtonDown(2), true);
    panel.on_event(PanelEvent::EncoderTwist(1, -3), false);
    assert_eq!(panel.volume_of(2), 85);
    panel.on_event(PanelEvent::EncoderDown(3), false);
    let actions = panel.on_delete_result(2, false);
    assert_eq!(panel.volume_of(2), 85);
    assert_eq!(
        actions,
        vec![
            PanelAction::ShowButton(2, ButtonImage::Play),
            PanelAction::CommitImages,
        ]
    );
}

#[test]
fn volume_clamps_at_both_ends() {
    let mut panel = PanelState::new();
    panel.on_event(PanelEvent::EncoderTwist(0, 1), false);
    panel.on_event(PanelEvent::ButtonDown(0), true);
    panel.on_event(PanelEvent::EncoderTwist(1, 1000), false);
    assert_eq!(panel.volume_of(0), 150);
    panel.on_event(PanelEvent::EncoderTwist(1, -1000), false);
    assert_eq!(panel.volume_of(0), 0);
}

#[test]
fn pitch_accumulates_in_tenths() {
    let mut panel = PanelState::new();
    panel.on_event(PanelEvent::EncoderTwist(0, 1), false);
    panel.on_event(PanelEvent::ButtonDown(1), true);
    panel.on_event(PanelEvent::EncoderTwist(2, 5), false);
    panel.on_event(PanelEvent::EncoderTwist(2, -2), false);
    assert_eq!(panel.pitch_of(1), 3);
}

#[test]
fn adjustments_require_a_selection() {
    let mut panel = PanelState::new();
    panel.on_event(PanelEvent::EncoderTwist(0, 1), false);
    let actions = panel.on_event(PanelEvent::EncoderTwist(1, 4), false);
    assert!(actions.is_empty());
    assert_eq!(panel.volume_of(0), 100);
    let actions = panel.on_event(PanelEvent::EncoderDown(3), false);
    assert!(actions.is_empty());
}

#[test]
fn selection_toggles_and_moves() {
    let mut panel = PanelState::new();
    panel.on_event(PanelEvent::EncoderTwist(0, 1), false);
    panel.on_event(PanelEvent::ButtonDown(4), true);
    assert_eq!(panel.selected_for_delete(), Some(4));
    let actions = panel.on_event(PanelEvent::ButtonDown(5), true);
    assert_eq!(panel.selected_for_delete(), Some(5));
    assert_eq!(
        actions,
        vec![
            PanelAction::ShowButton(4, ButtonImage::Play),
            PanelAction::ShowButton(5, ButtonImage::Pressed),
            PanelAction::CommitImages,
        ]
    );
    panel.on_event(PanelEvent::ButtonDown(5), true);
    assert_eq!(panel.selected_for_delete(), None);
    // An unbound key selects nothing.
    let actions = panel.on_event(PanelEvent::ButtonDown(6), false);
    assert!(actions.is_empty());
    assert_eq!(panel.selected_for_delete(), None);
}

#[test]
fn sink_cycles_through_all_three() {
    let mut panel = PanelState::new();
    assert_eq!(panel.playback_sink(), PlaybackSink::Default);
    panel.on_event(PanelEvent::EncoderDown(0), false);
    assert_eq!(panel.playback_sink(), PlaybackSink::Mixer);
    panel.on_event(PanelEvent::EncoderDown(0), false);
    assert_eq!(panel.playback_sink(), PlaybackSink::Both);
    panel.on_event(PanelEvent::EncoderDown(0), false);
    assert_eq!(panel.playback_sink(), PlaybackSink::Default);
}

#[test]
fn recording_flow_through_acks() {
    let mut panel = PanelState::new();
    // Playback mode, unbound key: press asks for a recording.
    let actions = panel.on_event(PanelEvent::ButtonDown(1), false);
    assert_eq!(actions, vec![PanelAction::IssueStart(1)]);
    assert_eq!(panel.active_recording_key(), None);
    // Accepted: the key is active and shown pressed.
    let actions = panel.on_start_result(1, true);
    assert_eq!(panel.active_recording_key(), Some(1));
    assert_eq!(
        actions,
        vec![
            PanelAction::ShowButton(1, ButtonImage::Pressed),
            PanelAction::CommitImages,
        ]
    );
    // Release of the active key asks for the stop.
    let actions = panel.on_event(PanelEvent::ButtonUp(1), false);
    assert_eq!(actions, vec![PanelAction::IssueStop(1)]);
    let actions = panel.on_stop_result(1, true);
    assert_eq!(panel.active_recording_key(), None);
    assert_eq!(
        actions,
        vec![
            PanelAction::ShowButton(1, ButtonImage::Play),
            PanelAction::CommitImages,
        ]
    );
}

#[test]
fn refused_start_changes_nothing() {
    let mut panel = PanelState::new();
    panel.on_event(PanelEvent::ButtonDown(1), false);
    let actions = panel.on_start_result(1, false);
    assert!(actions.is_empty());
    assert_eq!(panel.active_recording_key(), None);
}

#[test]
fn playback_release_dispatches_with_key_settings() {
    let mut panel = PanelState::new();
    // Give key 2 a volume and a pitch in Edit mode, then come back.
    panel.on_event(PanelEvent::EncoderTwist(0, 1), false);
    panel.on_event(PanelEvent::ButtonDown(2), true);
    panel.on_event(PanelEvent::EncoderTwist(1, 4), false);
    panel.on_event(PanelEvent::EncoderTwist(2, -7), false);
    panel.on_event(PanelEvent::ButtonDown(2), true); // deselect
    panel.on_event(PanelEvent::EncoderTwist(0, 1), false);
    // Route to both sinks.
    panel.on_event(PanelEvent::EncoderDown(0), false);
    panel.on_event(PanelEvent::EncoderDown(0), false);
    let actions = panel.on_event(PanelEvent::ButtonUp(2), true);
    assert_eq!(
        actions,
        vec![
            PanelAction::PlaySample(2, PlaybackSink::Both, 120, -7),
            PanelAction::ShowButton(2, ButtonImage::Play),
            PanelAction::CommitImages,
        ]
    );
    // A bound press in playback mode only shows the pressed state.
    let actions = panel.on_event(PanelEvent::ButtonDown(2), true);
    assert_eq!(
        actions,
        vec![
            PanelAction::ShowButton(2, ButtonImage::Pressed),
            PanelAction::CommitImages,
        ]
    );
}

#[test]
fn out_of_range_keys_are_ignored() {
    let mut panel = PanelState::new();
    assert!(panel.on_event(PanelEvent::ButtonDown(8), true).is_empty());
    assert!(panel.on_event(PanelEvent::ButtonUp(200), true).is_empty());
}

#[test]
fn file_names_follow_the_key_slots() {
    assert_eq!(recording_file_name(0), "recording_A.wav");
    assert_eq!(recording_file_name(2), "recording_C.wav");
    assert_eq!(recording_file_name(7), "recording_H.wav");
}
