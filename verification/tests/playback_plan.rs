use soundboard::playback::{aggregate_outcome, plan_playback, PlaybackSink, SinkTarget};

#[test]
fn both_fans_out_to_two_invocations() {
    let plan = plan_playback(PlaybackSink::Both, 100, 0);
    assert_eq!(
        plan.targets,
        vec![SinkTarget::DefaultOutput, SinkTarget::MixerSink]
    );
    assert_eq!(plan.volume_hundredths, 100);
    assert!(!plan.needs_pitched_copy);
}

#[test]
fn single_sinks_invoke_once() {
    let plan = plan_playback(PlaybackSink::Default, 80, 0);
    assert_eq!(plan.targets, vec![SinkTarget::DefaultOutput]);
    let plan = plan_playback(PlaybackSink::Mixer, 80, 0);
    assert_eq!(plan.targets, vec![SinkTarget::MixerSink]);
}

#[test]
fn pitched_copy_needed_exactly_for_nonzero_shift() {
    assert!(!plan_playback(PlaybackSink::Default, 100, 0).needs_pitched_copy);
    assert!(plan_playback(PlaybackSink::Default, 100, 1).needs_pitched_copy);
    assert!(plan_playback(PlaybackSink::Default, 100, -3).needs_pitched_copy);
}

#[test]
fn partial_failure_is_overall_failure() {
    // One sink failed, one succeeded: the aggregate is failure, while the
    // successful invocation already had its effect.
    assert!(!aggregate_outcome(&vec![true, false]));
    assert!(!aggregate_outcome(&vec![false, true]));
    assert!(aggregate_outcome(&vec![true, true]));
    assert!(!aggregate_outcome(&vec![false, false]));
    assert!(aggregate_outcome(&vec![]));
}
