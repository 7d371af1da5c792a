//! Serving: which sources are started, and the policy by which the state of
//! each device is refreshed from the cloud API when it has grown stale.

use crate::service::device::{Device, DeviceView, Timestamp};
use vstd::prelude::*;

verus! {

/// The age in seconds beyond which the cloud state of a device is stale.
pub const STALE_AFTER_SECONDS: u32 = 900;

/// The seconds that the poller waits before its first pass.
pub const WARM_UP_SECONDS: u64 = 20;

/// The seconds that the poller waits between two passes.
pub const PASS_INTERVAL_SECONDS: u64 = 60;

/// The port on which the HTTP API listens unless another is given.
pub const DEFAULT_HTTP_PORT: u16 = 8056;

/// The options of the `serve` command.
#[derive(Clone, Copy, Debug, PartialEq, Eq, Structural)]
pub struct ServeCommand {
    /// The port on which the HTTP API will listen
    pub http_port: u16,
}

/// Which of the sources are configured.
#[derive(Clone, Copy, Debug, PartialEq, Eq, Structural)]
pub struct Sources {
    pub platform_api: bool,
    pub undoc_api: bool,
    pub lan_discovery: bool,
}

/// One step of starting up. A failure of either query ends the start-up.
#[derive(Clone, Copy, Debug, PartialEq, Eq, Structural)]
pub enum StartupStep {
    /// List the devices of the cloud API and merge the list.
    QueryPlatformDevices,
    /// Log in to the companion API, list its devices and rooms and merge them.
    QueryUndocDevices,
    /// Start LAN discovery and merge what it announces from then on.
    StartLanDiscovery,
    /// Start the staleness poller.
    StartStatePolling,
    /// Serve the HTTP API.
    RunHttpServer { port: u16 },
}

/// The steps of starting up with the given sources: a source that is not
/// configured is left out, the poller and the HTTP server always start.
pub open spec fn startup_steps(port: u16, sources: Sources) -> Seq<StartupStep> {
    (if sources.platform_api {
        seq![StartupStep::QueryPlatformDevices]
    } else {
        Seq::empty()
    }) + (if sources.undoc_api {
        seq![StartupStep::QueryUndocDevices]
    } else {
        Seq::empty()
    }) + (if sources.lan_discovery {
        seq![StartupStep::StartLanDiscovery]
    } else {
        Seq::empty()
    }) + seq![StartupStep::StartStatePolling, StartupStep::RunHttpServer { port }]
}

impl ServeCommand {
    /// The command with the given port.
    pub fn new(http_port: u16) -> (r: ServeCommand)
        ensures
            r.http_port == http_port,
    {
        ServeCommand { http_port }
    }

    /// The steps that running the command takes, in order.
    pub fn plan(&self, sources: Sources) -> (r: Vec<StartupStep>)
        ensures
            r@ == startup_steps(self.http_port, sources),
    {
        let mut steps: Vec<StartupStep> = Vec::new();
        if sources.platform_api {
            steps.push(StartupStep::QueryPlatformDevices);
        }
        if sources.undoc_api {
            steps.push(StartupStep::QueryUndocDevices);
        }
        if sources.lan_discovery {
            steps.push(StartupStep::StartLanDiscovery);
        }
        steps.push(StartupStep::StartStatePolling);
        steps.push(StartupStep::RunHttpServer { port: self.http_port });
        assert(steps@ =~= startup_steps(self.http_port, sources));
        steps
    }
}

impl Default for ServeCommand {
    fn default() -> (r: ServeCommand)
        ensures
            r.http_port == DEFAULT_HTTP_PORT,
    {
        ServeCommand { http_port: DEFAULT_HTTP_PORT }
    }
}

/// What the poller does about one device.
#[derive(Clone, Copy, Debug, PartialEq, Eq, Structural)]
pub enum PollAction {
    /// The cloud state is fresh: nothing to do.
    UpToDate,
    /// The state is stale but the device is on the LAN, so it is most likely
    /// offline: no request is spent on it.
    LanAvailable,
    /// The state is stale and no cloud client is configured.
    NoPlatformClient,
    /// The state is stale but the device has no cloud descriptor to ask with.
    NoDescriptor,
    /// Fetch the state of this device from the cloud API.
    FetchState,
}

/// The cloud state of `device` is missing, or at `now` older than
/// `STALE_AFTER_SECONDS`.
pub open spec fn needs_update(device: DeviceView, now: Timestamp) -> bool {
    match device.http_device_state {
        None => true,
        Some(state) => now.total_nanos() - state.updated.total_nanos() > STALE_AFTER_SECONDS
            * 1_000_000_000,
    }
}

/// What the poller does about `device` at `now`.
pub open spec fn poll_action(device: DeviceView, now: Timestamp, have_client: bool) -> PollAction {
    if !needs_update(device, now) {
        PollAction::UpToDate
    } else if device.lan_device is Some {
        PollAction::LanAvailable
    } else if !have_client {
        PollAction::NoPlatformClient
    } else if device.http_device_info is Some {
        PollAction::FetchState
    } else {
        PollAction::NoDescriptor
    }
}

/// Decides what to do about one device at `now`. `have_client` says whether a
/// cloud client is configured.
pub fn poll_single_device(device: &Device, now: Timestamp, have_client: bool) -> (r: PollAction)
    ensures
        r == poll_action(device@, now, have_client),
{
    let needs_update = match device.device_state() {
        None => true,
        Some(state) => now.is_more_than_after(&state.updated, STALE_AFTER_SECONDS),
    };
    if !needs_update {
        PollAction::UpToDate
    } else if device.lan_device.is_some() {
        PollAction::LanAvailable
    } else if !have_client {
        PollAction::NoPlatformClient
    } else if device.http_device_info.is_some() {
        PollAction::FetchState
    } else {
        PollAction::NoDescriptor
    }
}

/// A device with a LAN record is never fetched from the cloud, however stale
/// its cloud state is.
pub proof fn lemma_lan_device_is_never_fetched(device: DeviceView, now: Timestamp, have_client: bool)
    requires
        device.lan_device is Some,
    ensures
        poll_action(device, now, have_client) != PollAction::FetchState,
{
}

/// A device without a LAN record, whose cloud state is missing or older than
/// the limit, is fetched, given a cloud client and the device's descriptor.
pub proof fn lemma_stale_device_is_fetched(device: DeviceView, now: Timestamp)
    requires
        device.lan_device is None,
        device.http_device_info is Some,
        device.http_device_state matches Some(state) ==> now.total_nanos()
            - state.updated.total_nanos() > STALE_AFTER_SECONDS * 1_000_000_000,
    ensures
        poll_action(device, now, true) == PollAction::FetchState,
{
}

/// Where the poller stands.
#[derive(Clone, Copy, Debug, PartialEq, Eq, Structural)]
pub enum PollerPhase {
    /// It has not waited out its warm-up yet.
    WarmUp,
    /// It is in a pass over a snapshot of the devices, and `next` is the
    /// position of the device to examine next.
    Pass { next: usize },
}

/// What the poller asks for next.
#[derive(Clone, Copy, Debug, PartialEq, Eq, Structural)]
pub enum PollerStep {
    /// Wait, then take a new snapshot of the devices.
    Sleep { seconds: u64 },
    /// Decide about the device at `index` of the snapshot.
    Examine { index: usize },
}

/// The step that follows in `phase`, and the phase after it, while the
/// snapshot of the pass holds `len` devices.
pub open spec fn poller_next(phase: PollerPhase, len: usize) -> (PollerPhase, PollerStep) {
    match phase {
        PollerPhase::WarmUp => (
            PollerPhase::Pass { next: 0 },
            PollerStep::Sleep { seconds: WARM_UP_SECONDS },
        ),
        PollerPhase::Pass { next } => if next < len {
            (PollerPhase::Pass { next: (next + 1) as usize }, PollerStep::Examine { index: next })
        } else {
            (PollerPhase::Pass { next: 0 }, PollerStep::Sleep { seconds: PASS_INTERVAL_SECONDS })
        },
    }
}

/// The phase after `k` steps from `phase`.
pub open spec fn poller_after(phase: PollerPhase, len: usize, k: nat) -> PollerPhase
    decreases k,
{
    if k == 0 {
        phase
    } else {
        poller_next(poller_after(phase, len, (k - 1) as nat), len).0
    }
}

/// The poller: it waits out its warm-up, then passes over a snapshot of the
/// devices one by one, waits, and passes again, without end.
pub fn periodic_state_poll(phase: PollerPhase, len: usize) -> (r: (PollerPhase, PollerStep))
    ensures
        r == poller_next(phase, len),
{
    match phase {
        PollerPhase::WarmUp => (
            PollerPhase::Pass { next: 0 },
            PollerStep::Sleep { seconds: WARM_UP_SECONDS },
        ),
        PollerPhase::Pass { next } => if next < len {
            (PollerPhase::Pass { next: next + 1 }, PollerStep::Examine { index: next })
        } else {
            (PollerPhase::Pass { next: 0 }, PollerStep::Sleep { seconds: PASS_INTERVAL_SECONDS })
        },
    }
}

/// A pass over `len` devices examines each position once, in order, and then
/// sleeps: the step after `k` steps of the pass is to examine position `k`
/// for every `k` below `len`, and after `len` steps it is to sleep for the
/// interval, which starts the next pass.
pub proof fn lemma_pass_examines_each_once(len: usize, k: nat)
    requires
        k <= len,
    ensures
        poller_after(PollerPhase::Pass { next: 0 }, len, k) == (PollerPhase::Pass {
            next: k as usize,
        }),
        k < len ==> poller_next(poller_after(PollerPhase::Pass { next: 0 }, len, k), len).1 == (
        PollerStep::Examine { index: k as usize }),
        k == len ==> poller_next(poller_after(PollerPhase::Pass { next: 0 }, len, k), len) == (
            PollerPhase::Pass { next: 0 },
            PollerStep::Sleep { seconds: PASS_INTERVAL_SECONDS },
        ),
    decreases k,
{
    if k > 0 {
        lemma_pass_examines_each_once(len, (k - 1) as nat);
    }
}

} // verus!
