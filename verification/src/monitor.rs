//! The subnet scanner: which addresses to probe, and what a cycle's
//! answers mean for the live set.
//!
//! The live set holds one record for each address that answered in the
//! latest cycle. A cycle observes the addresses that are up, one after the
//! other: an address that is not in the live set is added, one that is
//! there is stable, is refreshed and keeps the time it was first seen. At
//! the end of the cycle every record that was not observed is removed from
//! the live set and reported as such.

use vstd::prelude::*;
use vstd::string::*;

use crate::address::IpAddress;
use crate::device::{
    clone_text, device_views, lookup_vendor, status_views, text_view, vendor_of, vendor_prefix,
    DeviceView, StatusView,
};
use crate::error::PingError;
use crate::network::{parsed_network, Network};

pub use crate::device::{DeviceInfo, DeviceStatus};

verus! {

/// Milliseconds that the probe of a scanned address may take.
pub const SCAN_TIMEOUT_MS: u64 = 500;

/// Octets in the request that probes a scanned address.
pub const SCAN_PACKET_SIZE: usize = 56;

/// Time to live of the request that probes a scanned address.
pub const SCAN_TTL: u32 = 64;

/// What the probe of one address brought, with what was looked up for it.
#[derive(Debug)]
pub struct Sighting {
    /// The address that was probed.
    pub ip: IpAddress,
    /// Whether the probe was answered.
    pub is_up: bool,
    /// The hardware address, where one was found.
    pub mac: Option<String>,
    /// The host name, where one was found.
    pub hostname: Option<String>,
}

/// The addresses of a cycle, split by how they are handled.
#[derive(Debug)]
pub struct ScanPlan {
    /// Loopback addresses, which count as up without a probe.
    pub always_up: Vec<IpAddress>,
    /// Every other address, to be probed once each.
    pub to_probe: Vec<IpAddress>,
}

/// The scanner of one network, with its live set.
#[derive(Debug)]
pub struct NetworkMonitor {
    /// The network that is scanned.
    pub network: Network,
    /// Seconds between cycles.
    pub scan_interval_secs: u64,
    /// Whether hardware addresses are looked up.
    pub resolve_mac: bool,
    /// Whether only additions and removals are reported.
    pub changes_only: bool,
    /// The live set, one record for each address.
    pub devices: Vec<DeviceInfo>,
    /// When the latest cycle ended.
    pub last_scan: Option<i64>,
    /// Whether the dashboard is shown.
    pub use_ui: bool,
}

/// An address that is up in this cycle, with what is known of it.
pub struct Observation {
    pub ip: IpAddress,
    pub mac: Option<Seq<char>>,
    pub hostname: Option<Seq<char>>,
    pub vendor: Option<Seq<char>>,
}

/// The live set in the middle of a cycle: the records, for each whether
/// it was observed in this cycle, and the changes reported so far.
pub struct ScanState {
    pub devices: Seq<DeviceView>,
    pub seen: Seq<bool>,
    pub changes: Seq<StatusView>,
}

/// Whether `devices` holds a record for `ip`.
pub open spec fn known(devices: Seq<DeviceView>, ip: IpAddress) -> bool {
    exists|i: int| 0 <= i < devices.len() && (#[trigger] devices[i]).ip == ip
}

/// Where `devices` holds the record for `ip`.
pub open spec fn slot(devices: Seq<DeviceView>, ip: IpAddress) -> int {
    choose|i: int| 0 <= i < devices.len() && (#[trigger] devices[i]).ip == ip
}

/// No two records of `devices` are for one address.
pub open spec fn distinct(devices: Seq<DeviceView>) -> bool {
    forall|i: int, j: int|
        0 <= i < j < devices.len() ==> (#[trigger] devices[i]).ip != (#[trigger] devices[j]).ip
}

/// A loopback address as it is observed: it is the local host.
pub open spec fn local_observation(ip: IpAddress) -> Observation {
    Observation { ip, mac: None, hostname: Some("localhost"@), vendor: Some("Local"@) }
}

/// A sighting as it is observed: the hardware address counts only where
/// such addresses are looked up, and names the vendor.
pub open spec fn sighting_observation(sighting: Sighting, resolve_mac: bool) -> Observation {
    let mac = if resolve_mac {
        text_view(sighting.mac)
    } else {
        None
    };
    Observation {
        ip: sighting.ip,
        mac,
        hostname: text_view(sighting.hostname),
        vendor: match mac {
            Some(m) => vendor_of(vendor_prefix(m)),
            None => None,
        },
    }
}

/// The record of an address observed at `now`: it keeps the time it was
/// first seen where the live set knows it, and is first seen now where not.
pub open spec fn observed_record(
    devices: Seq<DeviceView>,
    observation: Observation,
    now: i64,
) -> DeviceView {
    DeviceView {
        ip: observation.ip,
        mac: observation.mac,
        hostname: observation.hostname,
        vendor: observation.vendor,
        first_seen: if known(devices, observation.ip) {
            devices[slot(devices, observation.ip)].first_seen
        } else {
            now
        },
        last_seen: now,
        offline_at: None,
    }
}

/// The state after one observation, which marks the address as seen.
///
/// A known address has its record replaced and is reported as stable,
/// unless only changes are wanted. An unknown address has its record
/// appended and is reported as added.
pub open spec fn observe(
    state: ScanState,
    observation: Observation,
    now: i64,
    changes_only: bool,
) -> ScanState {
    let record = observed_record(state.devices, observation, now);
    if known(state.devices, observation.ip) {
        let at = slot(state.devices, observation.ip);
        ScanState {
            devices: state.devices.update(at, record),
            seen: state.seen.update(at, true),
            changes: if changes_only {
                state.changes
            } else {
                state.changes.push(StatusView::Stable(record))
            },
        }
    } else {
        ScanState {
            devices: state.devices.push(record),
            seen: state.seen.push(true),
            changes: state.changes.push(StatusView::Added(record)),
        }
    }
}

/// The state after every address of `addresses` is observed as the local
/// host, in order.
pub open spec fn observe_local(
    state: ScanState,
    addresses: Seq<IpAddress>,
    now: i64,
    changes_only: bool,
) -> ScanState
    decreases addresses.len(),
{
    if addresses.len() == 0 {
        state
    } else {
        observe(
            observe_local(state, addresses.drop_last(), now, changes_only),
            local_observation(addresses.last()),
            now,
            changes_only,
        )
    }
}

/// The state after every sighting of `sightings` that is up is observed,
/// in order.
pub open spec fn observe_sightings(
    state: ScanState,
    sightings: Seq<Sighting>,
    resolve_mac: bool,
    now: i64,
    changes_only: bool,
) -> ScanState
    decreases sightings.len(),
{
    if sightings.len() == 0 {
        state
    } else {
        let before = observe_sightings(
            state,
            sightings.drop_last(),
            resolve_mac,
            now,
            changes_only,
        );
        if sightings.last().is_up {
            observe(before, sighting_observation(sightings.last(), resolve_mac), now, changes_only)
        } else {
            before
        }
    }
}

/// The records that were seen, in order.
pub open spec fn kept(devices: Seq<DeviceView>, seen: Seq<bool>) -> Seq<DeviceView>
    decreases devices.len(),
{
    if devices.len() == 0 || seen.len() != devices.len() {
        Seq::empty()
    } else if seen.last() {
        kept(devices.drop_last(), seen.drop_last()).push(devices.last())
    } else {
        kept(devices.drop_last(), seen.drop_last())
    }
}

/// The removals of the records that were not seen, in order.
pub open spec fn evicted(devices: Seq<DeviceView>, seen: Seq<bool>) -> Seq<StatusView>
    decreases devices.len(),
{
    if devices.len() == 0 || seen.len() != devices.len() {
        Seq::empty()
    } else if seen.last() {
        evicted(devices.drop_last(), seen.drop_last())
    } else {
        evicted(devices.drop_last(), seen.drop_last()).push(StatusView::Removed(devices.last()))
    }
}

/// What is kept comes from the records it is kept from, and holds an
/// address no more than once where they do.
pub proof fn lemma_kept_distinct(devices: Seq<DeviceView>, seen: Seq<bool>)
    requires
        seen.len() == devices.len(),
    ensures
        forall|a: int|
            0 <= a < kept(devices, seen).len() ==> known(
                devices,
                (#[trigger] kept(devices, seen)[a]).ip,
            ),
        distinct(devices) ==> distinct(kept(devices, seen)),
    decreases devices.len(),
{
    if devices.len() > 0 {
        let front = devices.drop_last();
        let flags = seen.drop_last();
        lemma_kept_distinct(front, flags);
        let inner = kept(front, flags);
        let all = kept(devices, seen);
        assert forall|a: int| 0 <= a < all.len() implies known(devices, (#[trigger] all[a]).ip) by {
            if a < inner.len() {
                assert(all[a] == inner[a]);
                let w = slot(front, inner[a].ip);
                assert(devices[w].ip == all[a].ip);
            } else {
                assert(devices[devices.len() - 1].ip == all[a].ip);
            }
        }
        if distinct(devices) {
            assert forall|a: int, b: int| 0 <= a < b < all.len() implies (#[trigger] all[a]).ip != (
            #[trigger] all[b]).ip by {
                if b < inner.len() {
                    assert(inner[a].ip != inner[b].ip);
                } else {
                    let w = slot(front, inner[a].ip);
                    assert(devices[w].ip != devices[devices.len() - 1].ip);
                }
            }
        }
    }
}

/// The state at the start of a cycle: nothing seen, nothing reported.
pub open spec fn cycle_start(devices: Seq<DeviceView>) -> ScanState {
    ScanState {
        devices,
        seen: Seq::new(devices.len(), |i: int| false),
        changes: Seq::empty(),
    }
}

/// The state when every observation of a cycle is made: first the
/// addresses that are always up, then the sightings.
pub open spec fn cycle_observed(
    devices: Seq<DeviceView>,
    always_up: Seq<IpAddress>,
    sightings: Seq<Sighting>,
    resolve_mac: bool,
    now: i64,
    changes_only: bool,
) -> ScanState {
    observe_sightings(
        observe_local(cycle_start(devices), always_up, now, changes_only),
        sightings,
        resolve_mac,
        now,
        changes_only,
    )
}

/// The addresses of `addresses` that are loopback, or those that are not,
/// as `loopback` says, in order.
pub open spec fn selected(addresses: Seq<IpAddress>, loopback: bool) -> Seq<IpAddress>
    decreases addresses.len(),
{
    if addresses.len() == 0 {
        Seq::empty()
    } else if addresses.last().is_loopback_spec() == loopback {
        selected(addresses.drop_last(), loopback).push(addresses.last())
    } else {
        selected(addresses.drop_last(), loopback)
    }
}

/// `part` behind `label`, or nothing where there is no such part.
pub open spec fn labelled(label: Seq<char>, part: Option<Seq<char>>) -> Seq<char> {
    match part {
        Some(text) => label + text,
        None => Seq::empty(),
    }
}

/// The line that describes a device: its address as text, then its
/// hardware address, host name and vendor, as far as they are known.
pub open spec fn described(ip_text: Seq<char>, device: DeviceView) -> Seq<char> {
    ip_text + labelled(" | MAC: "@, device.mac) + labelled(" | Host: "@, device.hostname)
        + labelled(" | Vendor: "@, device.vendor)
}

/// The text of the error for a network that cannot be parsed.
pub open spec fn invalid_network_text(network: Seq<char>) -> Seq<char> {
    "Invalid network address: "@ + network
}

/// Finds the record for `ip`.
fn find_device(devices: &Vec<DeviceInfo>, ip: IpAddress) -> (at: Option<usize>)
    ensures
        at is Some <==> known(device_views(devices@), ip),
        at is Some ==> at->Some_0 < devices@.len() && devices@[at->Some_0 as int].ip == ip,
{
    let mut i: usize = 0;
    while i < devices.len()
        invariant
            i <= devices.len(),
            forall|k: int| 0 <= k < i ==> devices@[k].ip != ip,
        decreases devices.len() - i,
    {
        if devices[i].ip == ip {
            assert(device_views(devices@)[i as int].ip == ip);
            return Some(i);
        }
        i = i + 1;
    }
    assert forall|k: int| 0 <= k < device_views(devices@).len() implies (
    #[trigger] device_views(devices@)[k]).ip != ip by {
        assert(devices@[k].ip != ip);
    }
    None
}

/// Makes one observation.
fn observe_device(
    devices: &mut Vec<DeviceInfo>,
    seen: &mut Vec<bool>,
    changes: &mut Vec<DeviceStatus>,
    ip: IpAddress,
    mac: Option<String>,
    hostname: Option<String>,
    vendor: Option<String>,
    now: i64,
    changes_only: bool,
)
    requires
        distinct(device_views(old(devices)@)),
        old(seen)@.len() == old(devices)@.len(),
    ensures
        ({
            let after = observe(
                ScanState {
                    devices: device_views(old(devices)@),
                    seen: old(seen)@,
                    changes: status_views(old(changes)@),
                },
                Observation {
                    ip,
                    mac: text_view(mac),
                    hostname: text_view(hostname),
                    vendor: text_view(vendor),
                },
                now,
                changes_only,
            );
            &&& device_views(final(devices)@) == after.devices
            &&& final(seen)@ == after.seen
            &&& status_views(final(changes)@) == after.changes
        }),
        distinct(device_views(final(devices)@)),
        final(seen)@.len() == final(devices)@.len(),
{
    let ghost before = device_views(devices@);
    let ghost reported = status_views(changes@);
    let found = find_device(devices, ip);
    match found {
        Some(at) => {
            assert(before[at as int].ip == ip);
            assert(slot(before, ip) == at);
            let record = DeviceInfo {
                ip,
                mac,
                hostname,
                vendor,
                first_seen: devices[at].first_seen,
                last_seen: now,
                offline_at: None,
            };
            assert(record@ == observed_record(
                before,
                Observation {
                    ip,
                    mac: text_view(mac),
                    hostname: text_view(hostname),
                    vendor: text_view(vendor),
                },
                now,
            ));
            devices.set(at, record.clone());
            seen.set(at, true);
            assert(device_views(devices@) =~= before.update(at as int, record@));
            if !changes_only {
                changes.push(DeviceStatus::Stable(record));
                assert(status_views(changes@) =~= reported.push(StatusView::Stable(record@)));
            }
            assert forall|i: int, j: int| 0 <= i < j < device_views(devices@).len() implies (
            #[trigger] device_views(devices@)[i]).ip != (#[trigger] device_views(
                devices@,
            )[j]).ip by {
                assert(before[i].ip != before[j].ip);
            }
        },
        None => {
            let record = DeviceInfo {
                ip,
                mac,
                hostname,
                vendor,
                first_seen: now,
                last_seen: now,
                offline_at: None,
            };
            devices.push(record.clone());
            seen.push(true);
            assert(device_views(devices@) =~= before.push(record@));
            changes.push(DeviceStatus::Added(record));
            assert(status_views(changes@) =~= reported.push(StatusView::Added(record@)));
            assert forall|i: int, j: int| 0 <= i < j < device_views(devices@).len() implies (
            #[trigger] device_views(devices@)[i]).ip != (#[trigger] device_views(
                devices@,
            )[j]).ip by {
                if j < before.len() {
                    assert(before[i].ip != before[j].ip);
                } else {
                    assert(before[i].ip != ip);
                }
            }
        },
    }
}

impl NetworkMonitor {
    /// No two records of the live set are for one address, and the network
    /// is well formed.
    pub open spec fn wf(self) -> bool {
        self.network.wf() && distinct(device_views(self.devices@))
    }

    /// A scanner of `network` with an empty live set.
    pub fn with_network(
        network: Network,
        scan_interval_secs: u64,
        resolve_mac: bool,
        changes_only: bool,
        use_ui: bool,
    ) -> (monitor: Self)
        ensures
            monitor.network == network,
            monitor.scan_interval_secs == scan_interval_secs,
            monitor.resolve_mac == resolve_mac,
            monitor.changes_only == changes_only,
            monitor.use_ui == use_ui,
            monitor.devices@.len() == 0,
            monitor.last_scan is None,
            network.wf() ==> monitor.wf(),
    {
        NetworkMonitor {
            network,
            scan_interval_secs,
            resolve_mac,
            changes_only,
            devices: Vec::new(),
            last_scan: None,
            use_ui,
        }
    }

    /// A scanner of the network that `network` spells in CIDR notation.
    ///
    /// Fails with `InvalidAddress`, naming the text, exactly when the
    /// text is no network.
    pub fn new(
        network: &str,
        scan_interval_secs: u64,
        resolve_mac: bool,
        changes_only: bool,
        use_ui: bool,
    ) -> (res: Result<Self, PingError>)
        ensures
            res is Ok <==> parsed_network(network@) is Some,
            res is Ok ==> {
                let monitor = res->Ok_0;
                &&& monitor.wf()
                &&& monitor.network == parsed_network(network@)->Some_0
                &&& monitor.scan_interval_secs == scan_interval_secs
                &&& monitor.resolve_mac == resolve_mac
                &&& monitor.changes_only == changes_only
                &&& monitor.use_ui == use_ui
                &&& monitor.devices@.len() == 0
                &&& monitor.last_scan is None
            },
            res is Err ==> res->Err_0 is InvalidAddress && res->Err_0->InvalidAddress_0@
                == invalid_network_text(network@),
    {
        match Network::parse(network) {
            Some(parsed) => Ok(
                Self::with_network(parsed, scan_interval_secs, resolve_mac, changes_only, use_ui),
            ),
            None => Err(
                PingError::InvalidAddress(
                    String::from_str("Invalid network address: ").concat(network),
                ),
            ),
        }
    }

    /// Whether the addresses of the network can be listed in memory.
    pub fn can_plan(&self) -> (fits: bool)
        requires
            self.network.wf(),
        ensures
            fits == (self.network.host_count() <= usize::MAX),
    {
        let span = self.network.span();
        span < usize::MAX as u128
    }

    /// Splits the addresses of the network into those that are always up
    /// and those to probe, each list in ascending order.
    pub fn plan_scan(&self) -> (plan: ScanPlan)
        requires
            self.network.wf(),
            self.network.host_count() <= usize::MAX,
        ensures
            plan.always_up@ == selected(self.network.addresses_spec(), true),
            plan.to_probe@ == selected(self.network.addresses_spec(), false),
    {
        let all = self.network.addresses();
        let mut always_up: Vec<IpAddress> = Vec::new();
        let mut to_probe: Vec<IpAddress> = Vec::new();
        let mut i: usize = 0;
        assert(all@.take(0) =~= Seq::<IpAddress>::empty());
        while i < all.len()
            invariant
                i <= all.len(),
                always_up@ == selected(all@.take(i as int), true),
                to_probe@ == selected(all@.take(i as int), false),
            decreases all.len() - i,
        {
            let ip = all[i];
            assert(all@.take(i + 1).drop_last() =~= all@.take(i as int));
            if ip.is_loopback() {
                always_up.push(ip);
            } else {
                to_probe.push(ip);
            }
            i = i + 1;
        }
        assert(all@.take(all@.len() as int) =~= all@);
        ScanPlan { always_up, to_probe }
    }

    /// Concludes a cycle at `now`.
    ///
    /// Every address of `always_up` is observed as the local host, then
    /// every sighting that is up, in order. After that the records that
    /// were not observed leave the live set, each reported as removed.
    /// The result lists the changes in the order they were found.
    pub fn complete_scan(
        &mut self,
        now: i64,
        always_up: &Vec<IpAddress>,
        sightings: &Vec<Sighting>,
    ) -> (changes: Vec<DeviceStatus>)
        requires
            old(self).wf(),
        ensures
            final(self).wf(),
            ({
                let observed = cycle_observed(
                    device_views(old(self).devices@),
                    always_up@,
                    sightings@,
                    old(self).resolve_mac,
                    now,
                    old(self).changes_only,
                );
                &&& device_views(final(self).devices@) == kept(observed.devices, observed.seen)
                &&& status_views(changes@) == observed.changes + evicted(
                    observed.devices,
                    observed.seen,
                )
            }),
            final(self).network == old(self).network,
            final(self).scan_interval_secs == old(self).scan_interval_secs,
            final(self).resolve_mac == old(self).resolve_mac,
            final(self).changes_only == old(self).changes_only,
            final(self).use_ui == old(self).use_ui,
            final(self).last_scan == old(self).last_scan,
    {
        let ghost start = cycle_start(device_views(self.devices@));
        let resolve_mac = self.resolve_mac;
        let changes_only = self.changes_only;
        let mut devices: Vec<DeviceInfo> = Vec::new();
        std::mem::swap(&mut devices, &mut self.devices);
        let mut seen: Vec<bool> = Vec::new();
        let mut changes: Vec<DeviceStatus> = Vec::new();
        let mut n: usize = 0;
        while n < devices.len()
            invariant
                n <= devices.len(),
                seen@ == Seq::new(n as nat, |i: int| false),
            decreases devices.len() - n,
        {
            seen.push(false);
            n = n + 1;
            assert(seen@ =~= Seq::new(n as nat, |i: int| false));
        }
        assert(status_views(changes@) =~= start.changes);
        assert(seen@ =~= start.seen);

        let mut i: usize = 0;
        assert(always_up@.take(0) =~= Seq::<IpAddress>::empty());
        while i < always_up.len()
            invariant
                i <= always_up.len(),
                distinct(device_views(devices@)),
                seen@.len() == devices@.len(),
                ({
                    let state = observe_local(start, always_up@.take(i as int), now, changes_only);
                    &&& device_views(devices@) == state.devices
                    &&& seen@ == state.seen
                    &&& status_views(changes@) == state.changes
                }),
            decreases always_up.len() - i,
        {
            let ip = always_up[i];
            assert(always_up@.take(i + 1).drop_last() =~= always_up@.take(i as int));
            observe_device(
                &mut devices,
                &mut seen,
                &mut changes,
                ip,
                None,
                Some(String::from_str("localhost")),
                Some(String::from_str("Local")),
                now,
                changes_only,
            );
            i = i + 1;
        }
        assert(always_up@.take(always_up@.len() as int) =~= always_up@);
        let ghost local = observe_local(start, always_up@, now, changes_only);

        let mut j: usize = 0;
        assert(sightings@.take(0) =~= Seq::<Sighting>::empty());
        while j < sightings.len()
            invariant
                j <= sightings.len(),
                distinct(device_views(devices@)),
                seen@.len() == devices@.len(),
                ({
                    let state = observe_sightings(
                        local,
                        sightings@.take(j as int),
                        resolve_mac,
                        now,
                        changes_only,
                    );
                    &&& device_views(devices@) == state.devices
                    &&& seen@ == state.seen
                    &&& status_views(changes@) == state.changes
                }),
            decreases sightings.len() - j,
        {
            assert(sightings@.take(j + 1).drop_last() =~= sightings@.take(j as int));
            let sighting = &sightings[j];
            if sighting.is_up {
                let mac = if resolve_mac {
                    clone_text(&sighting.mac)
                } else {
                    None
                };
                let vendor = match &mac {
                    Some(m) => lookup_vendor(m.as_str()),
                    None => None,
                };
                observe_device(
                    &mut devices,
                    &mut seen,
                    &mut changes,
                    sighting.ip,
                    mac,
                    clone_text(&sighting.hostname),
                    vendor,
                    now,
                    changes_only,
                );
            }
            j = j + 1;
        }
        assert(sightings@.take(sightings@.len() as int) =~= sightings@);
        let ghost observed = observe_sightings(local, sightings@, resolve_mac, now, changes_only);
        let ghost reported = status_views(changes@);

        let mut live: Vec<DeviceInfo> = Vec::new();
        let mut k: usize = 0;
        assert(device_views(devices@).take(0) =~= Seq::<DeviceView>::empty());
        assert(seen@.take(0) =~= Seq::<bool>::empty());
        assert(status_views(changes@) =~= reported + Seq::<StatusView>::empty());
        while k < devices.len()
            invariant
                k <= devices.len(),
                seen@.len() == devices@.len(),
                device_views(live@) == kept(
                    device_views(devices@).take(k as int),
                    seen@.take(k as int),
                ),
                status_views(changes@) == reported + evicted(
                    device_views(devices@).take(k as int),
                    seen@.take(k as int),
                ),
            decreases devices.len() - k,
        {
            let ghost views = device_views(devices@);
            let ghost old_live = device_views(live@);
            let ghost old_changes = status_views(changes@);
            assert(views.take(k + 1).drop_last() =~= views.take(k as int));
            assert(seen@.take(k + 1).drop_last() =~= seen@.take(k as int));
            assert(views.take(k + 1).last() == views[k as int]);
            assert(seen@.take(k + 1).last() == seen@[k as int]);
            if seen[k] {
                live.push(devices[k].clone());
                assert(device_views(live@) =~= old_live.push(views[k as int]));
            } else {
                changes.push(DeviceStatus::Removed(devices[k].clone()));
                assert(status_views(changes@) =~= old_changes.push(
                    StatusView::Removed(views[k as int]),
                ));
            }
            k = k + 1;
        }
        assert(device_views(devices@).take(devices@.len() as int) =~= device_views(devices@));
        assert(seen@.take(seen@.len() as int) =~= seen@);
        proof {
            lemma_kept_distinct(device_views(devices@), seen@);
        }
        self.devices = live;
        changes
    }

    /// Describes a device on one line: its address as text, then what
    /// is known of it, each part set off by a bar.
    pub fn format_device_info(&self, ip_text: &str, device: &DeviceInfo) -> (line: String)
        ensures
            line@ == described(ip_text@, device@),
    {
        let mut line = String::from_str(ip_text);
        match &device.mac {
            Some(mac) => {
                line.append(" | MAC: ");
                line.append(mac.as_str());
            },
            None => {},
        }
        match &device.hostname {
            Some(hostname) => {
                line.append(" | Host: ");
                line.append(hostname.as_str());
            },
            None => {},
        }
        match &device.vendor {
            Some(vendor) => {
                line.append(" | Vendor: ");
                line.append(vendor.as_str());
            },
            None => {},
        }
        line
    }

    /// Notes that a cycle ended at `now`.
    pub fn record_scan(&mut self, now: i64)
        ensures
            *final(self) == (NetworkMonitor { last_scan: Some(now), ..*old(self) }),
    {
        self.last_scan = Some(now);
    }
}

/// Whether a cycle observes `ip`: it is one of the addresses that are
/// always up, or a sighting of it is up.
pub open spec fn observed_in(
    always_up: Seq<IpAddress>,
    sightings: Seq<Sighting>,
    ip: IpAddress,
) -> bool {
    always_up.contains(ip) || exists|j: int|
        0 <= j < sightings.len() && (#[trigger] sightings[j]).is_up && sightings[j].ip == ip
}

/// What holds of the state in the middle of a cycle that began with the
/// live set `before` and has observed the addresses `observed` so far.
///
/// The old records stand where they stood, with their addresses and the
/// times they were first seen, and untouched while not seen. The records
/// behind them are new, seen, and first seen now. A record is marked seen
/// exactly when its address was observed, and every observed address has
/// a record.
pub open spec fn mid_cycle(
    state: ScanState,
    before: Seq<DeviceView>,
    observed: Set<IpAddress>,
    now: i64,
) -> bool {
    &&& state.seen.len() == state.devices.len()
    &&& distinct(state.devices)
    &&& before.len() <= state.devices.len()
    &&& forall|i: int|
        0 <= i < before.len() ==> (#[trigger] state.devices[i]).ip == before[i].ip
            && state.devices[i].first_seen == before[i].first_seen && (!state.seen[i]
            ==> state.devices[i] == before[i])
    &&& forall|i: int|
        before.len() <= i < state.devices.len() ==> state.seen[i] && (
        #[trigger] state.devices[i]).first_seen == now
    &&& forall|i: int|
        0 <= i < state.devices.len() ==> (state.seen[i] <==> observed.contains(
            (#[trigger] state.devices[i]).ip,
        ))
    &&& forall|i: int|
        0 <= i < state.devices.len() && state.seen[i] ==> (#[trigger] state.devices[i]).last_seen
            == now
    &&& forall|ip: IpAddress| #[trigger] observed.contains(ip) ==> known(state.devices, ip)
}

/// One observation keeps the state of a cycle in order, and adds its
/// address to those observed.
pub proof fn lemma_observe_mid_cycle(
    state: ScanState,
    before: Seq<DeviceView>,
    observed: Set<IpAddress>,
    observation: Observation,
    now: i64,
    changes_only: bool,
)
    requires
        mid_cycle(state, before, observed, now),
    ensures
        mid_cycle(
            observe(state, observation, now, changes_only),
            before,
            observed.insert(observation.ip),
            now,
        ),
{
    let after = observe(state, observation, now, changes_only);
    let seen_now = observed.insert(observation.ip);
    let ip = observation.ip;
    if known(state.devices, ip) {
        let at = slot(state.devices, ip);
        assert(state.devices[at].ip == ip);
        assert forall|i: int, j: int| 0 <= i < j < after.devices.len() implies (
        #[trigger] after.devices[i]).ip != (#[trigger] after.devices[j]).ip by {
            assert(state.devices[i].ip != state.devices[j].ip);
        }
        assert forall|i: int| 0 <= i < after.devices.len() implies (after.seen[i]
            <==> seen_now.contains((#[trigger] after.devices[i]).ip)) by {
            if i != at {
                assert(after.devices[i] == state.devices[i]);
                if i < at {
                    assert(state.devices[i].ip != state.devices[at].ip);
                } else {
                    assert(state.devices[at].ip != state.devices[i].ip);
                }
            }
        }
        assert forall|other: IpAddress| #[trigger] seen_now.contains(other) implies known(
            after.devices,
            other,
        ) by {
            if other == ip {
                assert(after.devices[at].ip == other);
            } else {
                let w = slot(state.devices, other);
                assert(after.devices[w].ip == other);
            }
        }
        assert forall|i: int| 0 <= i < before.len() implies (#[trigger] after.devices[i]).ip
            == before[i].ip && after.devices[i].first_seen == before[i].first_seen && (
        !after.seen[i] ==> after.devices[i] == before[i]) by {
            assert(state.devices[i].ip == before[i].ip);
        }
        assert forall|i: int| before.len() <= i < after.devices.len() implies after.seen[i] && (
        #[trigger] after.devices[i]).first_seen == now by {
            assert(state.devices[i].first_seen == now);
        }
        assert forall|i: int| 0 <= i < after.devices.len() && after.seen[i] implies (
        #[trigger] after.devices[i]).last_seen == now by {
            if i != at {
                assert(state.devices[i].last_seen == now);
            }
        }
    } else {
        let n = state.devices.len() as int;
        assert forall|i: int, j: int| 0 <= i < j < after.devices.len() implies (
        #[trigger] after.devices[i]).ip != (#[trigger] after.devices[j]).ip by {
            if j < n {
                assert(state.devices[i].ip != state.devices[j].ip);
            } else {
                assert(state.devices[i].ip != ip);
            }
        }
        assert forall|i: int| 0 <= i < after.devices.len() implies (after.seen[i]
            <==> seen_now.contains((#[trigger] after.devices[i]).ip)) by {
            if i < n {
                assert(after.devices[i] == state.devices[i]);
                assert(state.devices[i].ip != ip);
            }
        }
        assert forall|other: IpAddress| #[trigger] seen_now.contains(other) implies known(
            after.devices,
            other,
        ) by {
            if other == ip {
                assert(after.devices[n].ip == other);
            } else {
                let w = slot(state.devices, other);
                assert(after.devices[w].ip == other);
            }
        }
        assert forall|i: int| 0 <= i < before.len() implies (#[trigger] after.devices[i]).ip
            == before[i].ip && after.devices[i].first_seen == before[i].first_seen && (
        !after.seen[i] ==> after.devices[i] == before[i]) by {
            assert(state.devices[i].ip == before[i].ip);
        }
        assert forall|i: int| before.len() <= i < after.devices.len() implies after.seen[i] && (
        #[trigger] after.devices[i]).first_seen == now by {
            if i < n {
                assert(state.devices[i].first_seen == now);
            }
        }
        assert forall|i: int| 0 <= i < after.devices.len() && after.seen[i] implies (
        #[trigger] after.devices[i]).last_seen == now by {
            if i < n {
                assert(state.devices[i].last_seen == now);
            }
        }
    }
}

/// The addresses that the first observations of a cycle cover.
pub open spec fn covered(always_up: Seq<IpAddress>, sightings: Seq<Sighting>) -> Set<IpAddress> {
    Set::new(|ip: IpAddress| observed_in(always_up, sightings, ip))
}

/// The local observations of a cycle keep its state in order.
pub proof fn lemma_local_mid_cycle(
    before: Seq<DeviceView>,
    always_up: Seq<IpAddress>,
    now: i64,
    changes_only: bool,
)
    requires
        distinct(before),
    ensures
        mid_cycle(
            observe_local(cycle_start(before), always_up, now, changes_only),
            before,
            covered(always_up, Seq::empty()),
            now,
        ),
    decreases always_up.len(),
{
    if always_up.len() == 0 {
        assert(covered(always_up, Seq::empty()) =~= Set::<IpAddress>::empty());
        let start = cycle_start(before);
        assert(mid_cycle(start, before, Set::<IpAddress>::empty(), now));
    } else {
        let front = always_up.drop_last();
        lemma_local_mid_cycle(before, front, now, changes_only);
        lemma_observe_mid_cycle(
            observe_local(cycle_start(before), front, now, changes_only),
            before,
            covered(front, Seq::empty()),
            local_observation(always_up.last()),
            now,
            changes_only,
        );
        assert(covered(always_up, Seq::empty()) =~= covered(front, Seq::empty()).insert(
            always_up.last(),
        )) by {
            assert forall|ip: IpAddress|
                covered(always_up, Seq::empty()).contains(ip) <==> covered(
                    front,
                    Seq::empty(),
                ).insert(always_up.last()).contains(ip) by {
                if always_up.contains(ip) {
                    let w = choose|w: int| 0 <= w < always_up.len() && always_up[w] == ip;
                    if w < front.len() {
                        assert(front[w] == ip);
                    }
                }
                if front.contains(ip) {
                    let w = choose|w: int| 0 <= w < front.len() && front[w] == ip;
                    assert(always_up[w] == ip);
                }
                if ip == always_up.last() {
                    assert(always_up[always_up.len() - 1] == ip);
                }
            }
        }
    }
}

/// All observations of a cycle keep its state in order.
pub proof fn lemma_cycle_mid_cycle(
    before: Seq<DeviceView>,
    always_up: Seq<IpAddress>,
    sightings: Seq<Sighting>,
    resolve_mac: bool,
    now: i64,
    changes_only: bool,
)
    requires
        distinct(before),
    ensures
        mid_cycle(
            cycle_observed(before, always_up, sightings, resolve_mac, now, changes_only),
            before,
            covered(always_up, sightings),
            now,
        ),
    decreases sightings.len(),
{
    if sightings.len() == 0 {
        lemma_local_mid_cycle(before, always_up, now, changes_only);
        assert(sightings =~= Seq::<Sighting>::empty());
    } else {
        let front = sightings.drop_last();
        let last = sightings.last();
        lemma_cycle_mid_cycle(before, always_up, front, resolve_mac, now, changes_only);
        let state = cycle_observed(before, always_up, front, resolve_mac, now, changes_only);
        if last.is_up {
            lemma_observe_mid_cycle(
                state,
                before,
                covered(always_up, front),
                sighting_observation(last, resolve_mac),
                now,
                changes_only,
            );
        }
        let target = if last.is_up {
            covered(always_up, front).insert(last.ip)
        } else {
            covered(always_up, front)
        };
        assert(covered(always_up, sightings) =~= target) by {
            assert forall|ip: IpAddress|
                covered(always_up, sightings).contains(ip) <==> target.contains(ip) by {
                if observed_in(always_up, sightings, ip) && !always_up.contains(ip) {
                    let j = choose|j: int|
                        0 <= j < sightings.len() && (#[trigger] sightings[j]).is_up
                            && sightings[j].ip == ip;
                    if j < front.len() {
                        assert(front[j].is_up && front[j].ip == ip);
                    }
                }
                if observed_in(always_up, front, ip) && !always_up.contains(ip) {
                    let j = choose|j: int|
                        0 <= j < front.len() && (#[trigger] front[j]).is_up && front[j].ip == ip;
                    assert(sightings[j].is_up && sightings[j].ip == ip);
                }
                if last.is_up && ip == last.ip {
                    assert(sightings[sightings.len() - 1].is_up);
                }
            }
        }
    }
}

/// Whether `record` is one of `devices` that is marked as `flag` says.
pub open spec fn marked(
    devices: Seq<DeviceView>,
    seen: Seq<bool>,
    record: DeviceView,
    flag: bool,
) -> bool {
    exists|i: int| 0 <= i < devices.len() && seen[i] == flag && #[trigger] devices[i] == record
}

/// What is kept and what is evicted: a record is kept exactly when it is
/// marked seen, and reported as removed exactly when it is not.
pub proof fn lemma_kept_and_evicted(devices: Seq<DeviceView>, seen: Seq<bool>)
    requires
        seen.len() == devices.len(),
    ensures
        forall|a: int|
            0 <= a < kept(devices, seen).len() ==> marked(
                devices,
                seen,
                #[trigger] kept(devices, seen)[a],
                true,
            ),
        forall|i: int|
            0 <= i < devices.len() && seen[i] ==> kept(devices, seen).contains(
                #[trigger] devices[i],
            ),
        forall|k: int|
            0 <= k < evicted(devices, seen).len() ==> (#[trigger] evicted(devices, seen)[k])
                is Removed && marked(devices, seen, evicted(devices, seen)[k]->Removed_0, false),
        forall|i: int|
            0 <= i < devices.len() && !seen[i] ==> evicted(devices, seen).contains(
                StatusView::Removed(#[trigger] devices[i]),
            ),
    decreases devices.len(),
{
    if devices.len() > 0 {
        let front = devices.drop_last();
        let flags = seen.drop_last();
        let n = devices.len() - 1;
        lemma_kept_and_evicted(front, flags);
        let live = kept(devices, seen);
        let gone = evicted(devices, seen);
        let live0 = kept(front, flags);
        let gone0 = evicted(front, flags);
        assert forall|a: int| 0 <= a < live.len() implies marked(
            devices,
            seen,
            #[trigger] live[a],
            true,
        ) by {
            if a < live0.len() {
                assert(live[a] == live0[a]);
                assert(marked(front, flags, live0[a], true));
                let i = choose|i: int|
                    0 <= i < front.len() && flags[i] == true && #[trigger] front[i] == live0[a];
                assert(seen[i] == true && devices[i] == live[a]);
            } else {
                assert(seen[n] == true && devices[n] == live[a]);
            }
        }
        assert forall|i: int| 0 <= i < devices.len() && seen[i] implies live.contains(
            #[trigger] devices[i],
        ) by {
            if i < n {
                assert(flags[i] && front[i] == devices[i]);
                let a = choose|a: int| 0 <= a < live0.len() && live0[a] == front[i];
                assert(live[a] == devices[i]);
            } else {
                assert(live[live.len() - 1] == devices[i]);
            }
        }
        assert forall|k: int| 0 <= k < gone.len() implies (#[trigger] gone[k]) is Removed
            && marked(devices, seen, gone[k]->Removed_0, false) by {
            if k < gone0.len() {
                assert(gone[k] == gone0[k]);
                assert(marked(front, flags, gone0[k]->Removed_0, false));
                let i = choose|i: int|
                    0 <= i < front.len() && flags[i] == false && #[trigger] front[i]
                        == gone0[k]->Removed_0;
                assert(seen[i] == false && devices[i] == gone[k]->Removed_0);
            } else {
                assert(seen[n] == false && devices[n] == gone[k]->Removed_0);
            }
        }
        assert forall|i: int| 0 <= i < devices.len() && !seen[i] implies gone.contains(
            StatusView::Removed(#[trigger] devices[i]),
        ) by {
            if i < n {
                assert(!flags[i] && front[i] == devices[i]);
                let k = choose|k: int|
                    0 <= k < gone0.len() && gone0[k] == StatusView::Removed(front[i]);
                assert(gone[k] == StatusView::Removed(devices[i]));
            } else {
                assert(gone[gone.len() - 1] == StatusView::Removed(devices[i]));
            }
        }
    }
}

/// The outcome of a cycle.
///
/// The live set afterwards holds one record for each address that the
/// cycle observed, and for no other. Each record was last seen now, and
/// first seen when the live set before says, or now where it did not know
/// the address. The removals are the records of the live set before whose
/// addresses the cycle did not observe, each as it was, and every such
/// record is among them: a record leaves the live set exactly when it is
/// reported as removed.
pub proof fn lemma_cycle_outcome(
    before: Seq<DeviceView>,
    always_up: Seq<IpAddress>,
    sightings: Seq<Sighting>,
    resolve_mac: bool,
    now: i64,
    changes_only: bool,
)
    requires
        distinct(before),
    ensures
        ({
            let state = cycle_observed(before, always_up, sightings, resolve_mac, now, changes_only);
            let live = kept(state.devices, state.seen);
            let gone = evicted(state.devices, state.seen);
            &&& distinct(live)
            &&& forall|ip: IpAddress|
                #![trigger known(live, ip)]
                known(live, ip) <==> observed_in(always_up, sightings, ip)
            &&& forall|a: int|
                0 <= a < live.len() ==> (#[trigger] live[a]).last_seen == now && live[a].first_seen
                    == if known(before, live[a].ip) {
                    before[slot(before, live[a].ip)].first_seen
                } else {
                    now
                }
            &&& forall|k: int|
                0 <= k < gone.len() ==> (#[trigger] gone[k]) is Removed && before.contains(
                    gone[k]->Removed_0,
                ) && !observed_in(always_up, sightings, gone[k]->Removed_0.ip)
            &&& forall|i: int|
                0 <= i < before.len() && !observed_in(always_up, sightings, before[i].ip)
                    ==> gone.contains(StatusView::Removed(#[trigger] before[i]))
        }),
{
    let state = cycle_observed(before, always_up, sightings, resolve_mac, now, changes_only);
    let live = kept(state.devices, state.seen);
    let gone = evicted(state.devices, state.seen);
    let observed = covered(always_up, sightings);
    lemma_cycle_mid_cycle(before, always_up, sightings, resolve_mac, now, changes_only);
    lemma_kept_distinct(state.devices, state.seen);
    lemma_kept_and_evicted(state.devices, state.seen);
    assert forall|ip: IpAddress| #![trigger known(live, ip)] known(live, ip) <==> observed_in(
        always_up,
        sightings,
        ip,
    ) by {
        if known(live, ip) {
            let a = slot(live, ip);
            assert(marked(state.devices, state.seen, live[a], true));
            let i = choose|i: int|
                0 <= i < state.devices.len() && state.seen[i] == true
                    && #[trigger] state.devices[i] == live[a];
            assert(observed.contains(state.devices[i].ip));
        }
        if observed_in(always_up, sightings, ip) {
            assert(observed.contains(ip));
            let i = slot(state.devices, ip);
            assert(state.devices[i].ip == ip);
            assert(state.seen[i]);
            assert(live.contains(state.devices[i]));
            let a = choose|a: int| 0 <= a < live.len() && live[a] == state.devices[i];
            assert(live[a].ip == ip);
        }
    }
    assert forall|a: int| 0 <= a < live.len() implies (#[trigger] live[a]).last_seen == now
        && live[a].first_seen == if known(before, live[a].ip) {
        before[slot(before, live[a].ip)].first_seen
    } else {
        now
    } by {
        assert(marked(state.devices, state.seen, live[a], true));
        let i = choose|i: int|
            0 <= i < state.devices.len() && state.seen[i] == true && #[trigger] state.devices[i]
                == live[a];
        if i < before.len() {
            assert(state.devices[i].ip == before[i].ip);
            let w = slot(before, live[a].ip);
            assert(before[w].ip == before[i].ip);
            if w < i {
                assert(before[w].ip != before[i].ip);
            } else if w > i {
                assert(before[i].ip != before[w].ip);
            }
        } else {
            if known(before, live[a].ip) {
                let w = slot(before, live[a].ip);
                assert(state.devices[w].ip == before[w].ip);
                assert(state.devices[w].ip != state.devices[i].ip);
            }
        }
    }
    assert forall|k: int| 0 <= k < gone.len() implies (#[trigger] gone[k]) is Removed
        && before.contains(gone[k]->Removed_0) && !observed_in(
        always_up,
        sightings,
        gone[k]->Removed_0.ip,
    ) by {
        assert(marked(state.devices, state.seen, gone[k]->Removed_0, false));
        let i = choose|i: int|
            0 <= i < state.devices.len() && state.seen[i] == false && #[trigger] state.devices[i]
                == gone[k]->Removed_0;
        assert(!observed.contains(state.devices[i].ip));
        assert(i < before.len());
        assert(state.devices[i] == before[i]);
    }
    assert forall|i: int|
        0 <= i < before.len() && !observed_in(
            always_up,
            sightings,
            before[i].ip,
        ) implies gone.contains(StatusView::Removed(#[trigger] before[i])) by {
        assert(state.devices[i].ip == before[i].ip);
        assert(!observed.contains(state.devices[i].ip));
        assert(!state.seen[i]);
        assert(state.devices[i] == before[i]);
        assert(gone.contains(StatusView::Removed(state.devices[i])));
    }
}

} // verus!
