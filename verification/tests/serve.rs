use govee_bridge::commands::serve::{
    periodic_state_poll, poll_single_device, PollAction, PollerPhase, PollerStep, ServeCommand,
    Sources, StartupStep,
};
use govee_bridge::service::device::{
    Device, HttpDeviceInfo, HttpDeviceState, LanDevice, Timestamp,
};

fn at(secs: i64, nanos: u32) -> Timestamp {
    Timestamp::new(secs, nanos)
}

fn described() -> Device {
    let mut device = Device::new("H6072", "AA");
    device.set_http_device_info(HttpDeviceInfo {
        sku: "H6072".to_string(),
        device: "AA".to_string(),
        device_name: "Lamp".to_string(),
        capabilities: vec![],
    });
    device
}

fn with_state(mut device: Device, updated: Timestamp) -> Device {
    device.set_http_device_state(HttpDeviceState { online: true, updated });
    device
}

fn on_lan(mut device: Device) -> Device {
    device.set_lan_device(LanDevice {
        ip: "192.168.1.20".to_string(),
        sku: "H6072".to_string(),
        device: "AA".to_string(),
    });
    device
}

#[test]
fn a_fresh_device_is_left_alone() {
    let device = with_state(described(), at(1000, 0));
    assert_eq!(poll_single_device(&device, at(1000, 0), true), PollAction::UpToDate);
    assert_eq!(poll_single_device(&device, at(1899, 999_999_999), true), PollAction::UpToDate);
    assert_eq!(poll_single_device(&device, at(1900, 0), true), PollAction::UpToDate);
    assert_eq!(poll_single_device(&device, at(500, 0), true), PollAction::UpToDate);
    assert_eq!(poll_single_device(&on_lan(device), at(1900, 0), false), PollAction::UpToDate);
}

#[test]
fn a_state_older_than_the_limit_is_fetched() {
    let device = with_state(described(), at(1000, 0));
    assert_eq!(poll_single_device(&device, at(1900, 1), true), PollAction::FetchState);
    assert_eq!(poll_single_device(&device, at(1901, 0), true), PollAction::FetchState);
    assert_eq!(poll_single_device(&device, at(1_000_000, 0), true), PollAction::FetchState);
}

#[test]
fn a_device_without_state_is_fetched() {
    assert_eq!(poll_single_device(&described(), at(0, 0), true), PollAction::FetchState);
}

#[test]
fn a_device_on_the_lan_is_never_fetched() {
    let stale = on_lan(with_state(described(), at(1000, 0)));
    assert_eq!(poll_single_device(&stale, at(5000, 0), true), PollAction::LanAvailable);
    assert_eq!(poll_single_device(&stale, at(5000, 0), false), PollAction::LanAvailable);
    let absent = on_lan(described());
    assert_eq!(poll_single_device(&absent, at(5000, 0), true), PollAction::LanAvailable);
    let bare = on_lan(Device::new("H6072", "AA"));
    assert_eq!(poll_single_device(&bare, at(5000, 0), true), PollAction::LanAvailable);
}

#[test]
fn without_a_client_nothing_is_fetched() {
    let device = with_state(described(), at(1000, 0));
    assert_eq!(poll_single_device(&device, at(5000, 0), false), PollAction::NoPlatformClient);
    assert_eq!(
        poll_single_device(&Device::new("H6072", "AA"), at(5000, 0), false),
        PollAction::NoPlatformClient
    );
}

#[test]
fn without_a_descriptor_nothing_is_fetched() {
    let device = with_state(Device::new("H6072", "AA"), at(1000, 0));
    assert_eq!(poll_single_device(&device, at(5000, 0), true), PollAction::NoDescriptor);
    assert_eq!(
        poll_single_device(&Device::new("H6072", "AA"), at(5000, 0), true),
        PollAction::NoDescriptor
    );
}

#[test]
fn the_poller_warms_up_then_passes_and_sleeps() {
    let mut phase = PollerPhase::WarmUp;
    let mut steps = Vec::new();
    for _ in 0..10 {
        let (next, step) = periodic_state_poll(phase, 3);
        phase = next;
        steps.push(step);
    }
    assert_eq!(
        steps,
        vec![
            PollerStep::Sleep { seconds: 20 },
            PollerStep::Examine { index: 0 },
            PollerStep::Examine { index: 1 },
            PollerStep::Examine { index: 2 },
            PollerStep::Sleep { seconds: 60 },
            PollerStep::Examine { index: 0 },
            PollerStep::Examine { index: 1 },
            PollerStep::Examine { index: 2 },
            PollerStep::Sleep { seconds: 60 },
            PollerStep::Examine { index: 0 },
        ]
    );
    assert_eq!(phase, PollerPhase::Pass { next: 1 });
}

#[test]
fn a_pass_over_no_devices_only_sleeps() {
    assert_eq!(
        periodic_state_poll(PollerPhase::Pass { next: 0 }, 0),
        (PollerPhase::Pass { next: 0 }, PollerStep::Sleep { seconds: 60 })
    );
    assert_eq!(
        periodic_state_poll(PollerPhase::WarmUp, 0),
        (PollerPhase::Pass { next: 0 }, PollerStep::Sleep { seconds: 20 })
    );
}

#[test]
fn a_pass_ends_when_the_snapshot_is_used_up() {
    assert_eq!(
        periodic_state_poll(PollerPhase::Pass { next: 5 }, 2),
        (PollerPhase::Pass { next: 0 }, PollerStep::Sleep { seconds: 60 })
    );
    assert_eq!(
        periodic_state_poll(PollerPhase::Pass { next: usize::MAX }, usize::MAX),
        (PollerPhase::Pass { next: 0 }, PollerStep::Sleep { seconds: 60 })
    );
}

#[test]
fn each_stale_device_is_fetched_once_in_a_pass() {
    let devices = vec![
        with_state(described(), at(0, 0)),
        on_lan(with_state(described(), at(0, 0))),
        with_state(described(), at(4500, 0)),
        described(),
    ];
    let mut phase = PollerPhase::Pass { next: 0 };
    let mut fetched = Vec::new();
    loop {
        let (next, step) = periodic_state_poll(phase, devices.len());
        phase = next;
        match step {
            PollerStep::Examine { index } => {
                if poll_single_device(&devices[index], at(5000, 0), true) == PollAction::FetchState {
                    fetched.push(index);
                }
            }
            PollerStep::Sleep { .. } => break,
        }
    }
    assert_eq!(fetched, vec![0, 3]);
}

#[test]
fn the_default_port() {
    assert_eq!(ServeCommand::default().http_port, 8056);
    assert_eq!(ServeCommand::new(80).http_port, 80);
}

#[test]
fn the_plan_leaves_out_what_is_not_configured() {
    let command = ServeCommand::new(8056);
    let none = Sources { platform_api: false, undoc_api: false, lan_discovery: false };
    assert_eq!(
        command.plan(none),
        vec![StartupStep::StartStatePolling, StartupStep::RunHttpServer { port: 8056 }]
    );
    let all = Sources { platform_api: true, undoc_api: true, lan_discovery: true };
    assert_eq!(
        command.plan(all),
        vec![
            StartupStep::QueryPlatformDevices,
            StartupStep::QueryUndocDevices,
            StartupStep::StartLanDiscovery,
            StartupStep::StartStatePolling,
            StartupStep::RunHttpServer { port: 8056 }
        ]
    );
    let lan_only = Sources { platform_api: false, undoc_api: false, lan_discovery: true };
    assert_eq!(
        ServeCommand::new(1).plan(lan_only),
        vec![
            StartupStep::StartLanDiscovery,
            StartupStep::StartStatePolling,
            StartupStep::RunHttpServer { port: 1 }
        ]
    );
}
