use mitch_cli::actor::{decode_sample, status_byte, ActorInput, ActorState, Effect};
use mitch_cli::mitch::Commands;

fn notification(value: Vec<u8>) -> ActorInput {
    ActorInput::Notification { from_data: true, value }
}

fn scenario_payload() -> Vec<u8> {
    vec![0, 0, 0, 0, 1, 2, 3, 4, 5, 6, 7, 8, 9, 10, 11, 12, 13, 14, 15, 16]
}

#[test]
fn sample_is_bytes_after_header() {
    let s = decode_sample(&scenario_payload()).unwrap();
    assert_eq!(s, (1i16..=16).collect::<Vec<i16>>());
}

#[test]
fn sample_bytes_are_zero_extended() {
    let mut p = vec![9u8; 4];
    p.extend([0xFFu8; 16]);
    assert_eq!(decode_sample(&p).unwrap(), vec![255i16; 16]);
}

#[test]
fn short_notifications_carry_no_sample() {
    assert_eq!(decode_sample(&[1, 2, 3]), None);
    assert_eq!(decode_sample(&[]), None);
    assert_eq!(decode_sample(&scenario_payload()[..19]), None);
}

#[test]
fn power_byte_is_index_four() {
    assert_eq!(status_byte(&[0x57, 0, 0, 0, 87, 1]), Some(87));
    assert_eq!(status_byte(&[1, 2, 3, 4]), None);
}

#[test]
fn start_recording_arms_stream() {
    let mut s = ActorState::spawned();
    let e = s.step(&ActorInput::StartRecording);
    assert_eq!(
        e,
        vec![
            Effect::OpenOutlet,
            Effect::Write(Commands::StartPressureStream),
            Effect::ReadCommand,
            Effect::EnableNotify,
        ]
    );
    assert!(s.streaming && !s.finished);
}

#[test]
fn recording_pushes_one_sample_per_notification() {
    let mut s = ActorState::spawned();
    s.step(&ActorInput::StartRecording);
    let e = s.step(&notification(scenario_payload()));
    assert_eq!(e, vec![Effect::PushSample((1i16..=16).collect())]);
    let e = s.step(&notification(vec![0, 0, 0]));
    assert!(e.is_empty());
}

#[test]
fn notifications_before_recording_are_dropped() {
    let mut s = ActorState::spawned();
    assert!(s.step(&notification(scenario_payload())).is_empty());
}

#[test]
fn other_characteristics_are_ignored() {
    let mut s = ActorState::spawned();
    s.step(&ActorInput::StartRecording);
    let e = s.step(&ActorInput::Notification { from_data: false, value: scenario_payload() });
    assert!(e.is_empty());
}

#[test]
fn status_asks_for_power() {
    let mut s = ActorState::spawned();
    assert_eq!(
        s.step(&ActorInput::Status),
        vec![Effect::Write(Commands::GetPower), Effect::ReadPower]
    );
}

#[test]
fn disconnect_while_idle_reconnects_without_rearming() {
    let mut s = ActorState::spawned();
    assert_eq!(s.step(&ActorInput::Disconnected), vec![Effect::Reconnect]);
    assert!(s.step(&ActorInput::Reconnected { ok: true }).is_empty());
    assert!(!s.finished);
}

#[test]
fn reconnect_while_streaming_rearms() {
    let mut s = ActorState::spawned();
    s.step(&ActorInput::StartRecording);
    assert_eq!(s.step(&ActorInput::Disconnected), vec![Effect::Reconnect]);
    assert_eq!(
        s.step(&ActorInput::Reconnected { ok: true }),
        vec![Effect::Write(Commands::StartPressureStream), Effect::ReadCommand, Effect::EnableNotify]
    );
}

#[test]
fn failed_reconnect_keeps_running() {
    let mut s = ActorState::spawned();
    s.step(&ActorInput::StartRecording);
    assert!(s.step(&ActorInput::Reconnected { ok: false }).is_empty());
    assert!(s.streaming && !s.finished);
}

#[test]
fn shutdown_twice_is_harmless() {
    let mut s = ActorState::spawned();
    s.step(&ActorInput::StartRecording);
    assert_eq!(
        s.step(&ActorInput::Shutdown),
        vec![Effect::DisconnectDevice, Effect::Unregister, Effect::CloseOutlet]
    );
    assert!(s.finished && !s.streaming);
    assert!(s.step(&ActorInput::Shutdown).is_empty());
    assert!(s.finished);
}

#[test]
fn every_exit_cleans_up() {
    for input in [
        ActorInput::Shutdown,
        ActorInput::ChannelClosed,
        ActorInput::StreamEnded,
        ActorInput::OperationFailed,
    ] {
        let mut s = ActorState::spawned();
        assert_eq!(s.step(&input), vec![Effect::DisconnectDevice, Effect::Unregister]);
        assert!(s.finished);
    }
}

#[test]
fn finished_actor_pushes_nothing() {
    let mut s = ActorState::spawned();
    s.step(&ActorInput::StartRecording);
    s.step(&ActorInput::ChannelClosed);
    assert!(s.step(&notification(scenario_payload())).is_empty());
    assert!(s.step(&ActorInput::StartRecording).is_empty());
}

#[test]
fn samples_follow_arrival_order() {
    let mut s = ActorState::spawned();
    s.step(&ActorInput::StartRecording);
    let mut second = vec![0u8; 4];
    second.extend(100u8..116);
    let mut pushed = Vec::new();
    for input in [notification(scenario_payload()), notification(second)] {
        pushed.extend(s.step(&input));
    }
    assert_eq!(
        pushed,
        vec![
            Effect::PushSample((1i16..=16).collect()),
            Effect::PushSample((100i16..116).collect()),
        ]
    );
}
