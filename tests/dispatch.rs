use mitch_cli::dispatch::{
    disconnect, discovery_window_ms, has_mitch_prefix, locate, record, register, scan_reply,
    status_reply,
};
use mitch_cli::protocol::{not_connected, not_found, ClientCommand, DaemonResponse, DeviceStatus};
use mitch_cli::registry::Registry;

fn s(x: &str) -> String {
    x.to_string()
}

fn error(m: &str) -> DaemonResponse {
    DaemonResponse::Error(s(m))
}

#[test]
fn scan_lists_the_one_device() {
    let r = scan_reply(&vec![Some(s("mitch-A"))]);
    assert_eq!(r, DaemonResponse::Devices(vec![s("mitch-A")]));
}

#[test]
fn scan_filters_by_prefix() {
    let r = scan_reply(&vec![Some(s("mitch-A")), Some(s("other-B")), None, Some(s("mitc")), Some(s("Mitch-C"))]);
    assert_eq!(r, DaemonResponse::Devices(vec![s("mitch-A")]));
}

#[test]
fn scan_with_nothing_visible() {
    assert_eq!(scan_reply(&vec![]), DaemonResponse::Devices(vec![]));
    assert_eq!(discovery_window_ms(&ClientCommand::Scan { timeout_ms: 0 }), Some(0));
}

#[test]
fn discovery_windows() {
    assert_eq!(discovery_window_ms(&ClientCommand::Scan { timeout_ms: 100 }), Some(100));
    assert_eq!(discovery_window_ms(&ClientCommand::Connect { name: s("mitch-A") }), Some(5000));
    assert_eq!(discovery_window_ms(&ClientCommand::Status), None);
    assert_eq!(discovery_window_ms(&ClientCommand::Record { name: s("mitch-A") }), None);
}

#[test]
fn prefix_check() {
    assert!(has_mitch_prefix(&s("mitch")));
    assert!(has_mitch_prefix(&s("mitch-é")));
    assert!(!has_mitch_prefix(&s("mitc")));
    assert!(!has_mitch_prefix(&s("")));
    assert!(!has_mitch_prefix(&s("xmitch")));
}

#[test]
fn locate_takes_last_exact_match() {
    let v = vec![Some(s("mitch-A")), None, Some(s("mitch-AB")), Some(s("mitch-A"))];
    assert_eq!(locate(&v, &s("mitch-A")), Ok(3));
    assert_eq!(locate(&v, &s("mitch-AB")), Ok(2));
}

#[test]
fn locate_missing_device() {
    let v = vec![Some(s("mitch-A"))];
    assert_eq!(locate(&v, &s("mitch-B")), Err(error("mitch-B not found")));
}

#[test]
fn connect_with_empty_name_is_not_found() {
    let v = vec![Some(s("mitch-A")), None];
    assert_eq!(locate(&v, &s("")), Err(error(" not found")));
    assert_eq!(not_found(&s("")), error(" not found"));
}

#[test]
fn disconnect_without_connect() {
    let mut reg: Registry<u32> = Registry::new();
    let (r, sender) = disconnect(&mut reg, &s("mitch-A"));
    assert_eq!(r, error("Device not connected"));
    assert_eq!(sender, None);
    assert_eq!(reg.len(), 0);
}

#[test]
fn second_disconnect_is_not_connected() {
    let mut reg: Registry<u32> = Registry::new();
    register(&mut reg, s("mitch-A"), 1, 10);
    let (r, sender) = disconnect(&mut reg, &s("mitch-A"));
    assert_eq!(r, DaemonResponse::Success);
    assert_eq!(sender, Some(10));
    let (r, sender) = disconnect(&mut reg, &s("mitch-A"));
    assert_eq!(r, not_connected());
    assert_eq!(sender, None);
}

#[test]
fn record_needs_connected_device() {
    let mut reg: Registry<u32> = Registry::new();
    assert_eq!(record(&reg, &s("mitch-A")), Err(error("Device not connected")));
    register(&mut reg, s("mitch-A"), 1, 10);
    assert_eq!(record(&reg, &s("mitch-A")), Ok(&10));
}

#[test]
fn register_hands_back_displaced_actor() {
    let mut reg: Registry<u32> = Registry::new();
    let (r, prev) = register(&mut reg, s("mitch-A"), 1, 10);
    assert_eq!(r, DaemonResponse::Success);
    assert_eq!(prev, None);
    let (_, prev) = register(&mut reg, s("mitch-A"), 2, 20);
    assert_eq!(prev, Some((1, 10)));
    assert_eq!(reg.len(), 1);
    assert_eq!(reg.get(&s("mitch-A")), Some(&20));
}

#[test]
fn status_keeps_answers_only() {
    let names = vec![s("mitch-A"), s("mitch-B"), s("mitch-C")];
    let r = status_reply(&names, &vec![Some(80), None, Some(15)]);
    assert_eq!(
        r,
        DaemonResponse::Status(vec![
            DeviceStatus { name: s("mitch-A"), power: 80 },
            DeviceStatus { name: s("mitch-C"), power: 15 },
        ])
    );
}

#[test]
fn status_of_empty_registry() {
    assert_eq!(status_reply(&vec![], &vec![]), DaemonResponse::Status(vec![]));
}

#[test]
fn status_repeated_gives_one_entry_per_actor() {
    let mut reg: Registry<u32> = Registry::new();
    register(&mut reg, s("mitch-A"), 1, 10);
    register(&mut reg, s("mitch-B"), 2, 20);
    for _ in 0..100 {
        let snap = reg.snapshot();
        let names: Vec<String> = snap.iter().map(|(n, _)| n.clone()).collect();
        let replies: Vec<Option<u8>> = snap.iter().map(|(_, v)| Some(**v as u8)).collect();
        match status_reply(&names, &replies) {
            DaemonResponse::Status(v) => {
                assert_eq!(v.len(), 2);
                assert_ne!(v[0].name, v[1].name);
            }
            other => panic!("unexpected reply {:?}", other),
        }
    }
}
