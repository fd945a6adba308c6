//! The presence of one device over time.
//!
//! A device is judged by how many probes in a row it has failed. One
//! failure changes nothing. The second makes the device unstable and
//! opens an offline interval; the fifth makes it offline. The first
//! success after that closes the interval and brings the device back
//! online. A success of a device that has not failed changes nothing but
//! the time it was last seen.
//!
//! Wall-clock times are milliseconds since the Unix epoch; times on the
//! monotonic clock are milliseconds since an instant the caller chooses.

use vstd::prelude::*;

use crate::address::IpAddress;
use crate::device::{clone_text, text_view, DeviceInfo};

verus! {

/// Failures in a row at which a device becomes unstable.
pub const UNSTABLE_THRESHOLD: u32 = 2;

/// Failures in a row from which a device is offline.
pub const OFFLINE_THRESHOLD: u32 = 5;

/// How the dashboard classifies a device.
#[derive(Clone, Copy, Debug, PartialEq, Eq, Structural)]
pub enum DeviceUIStatus {
    /// The device answers.
    Online,
    /// The device has failed many probes in a row.
    Offline,
    /// The device has failed a few probes in a row.
    Unstable,
    /// The device was just found.
    New,
    /// The device has been offline for long.
    Lost,
}

/// A span during which a device was counted as unreachable.
#[derive(Clone, Copy, Debug, PartialEq, Eq, Structural)]
pub struct OfflineEvent {
    /// When the device became unstable.
    pub offline_at: i64,
    /// When the device answered again; absent while the event is open.
    pub online_at: Option<i64>,
    /// Milliseconds from `offline_at` to `online_at`; 0 while open.
    pub duration_ms: u64,
}

/// What the dashboard knows of a device.
#[derive(Debug)]
pub struct DeviceUIInfo {
    /// The address of the device.
    pub ip: IpAddress,
    /// The hardware address, where known.
    pub mac: Option<String>,
    /// The host name, where known.
    pub hostname: Option<String>,
    /// The maker, where known.
    pub vendor: Option<String>,
    /// How the device is classified.
    pub status: DeviceUIStatus,
    /// When the device first answered.
    pub first_seen: i64,
    /// When the device last answered.
    pub last_seen: i64,
    /// When the classification last changed, on the monotonic clock.
    pub last_status_change: u64,
    /// When the device was marked offline.
    pub offline_at: Option<i64>,
    /// The offline events of the device, oldest first.
    pub offline_events: Vec<OfflineEvent>,
    /// How many probes in a row the device has failed.
    pub consecutive_failures: u32,
    /// When the device last failed a probe, on the monotonic clock.
    pub last_failure_time: Option<u64>,
}

/// The view of a `DeviceUIInfo`.
pub struct DeviceUIView {
    pub ip: IpAddress,
    pub mac: Option<Seq<char>>,
    pub hostname: Option<Seq<char>>,
    pub vendor: Option<Seq<char>>,
    pub status: DeviceUIStatus,
    pub first_seen: i64,
    pub last_seen: i64,
    pub last_status_change: u64,
    pub offline_at: Option<i64>,
    pub offline_events: Seq<OfflineEvent>,
    pub consecutive_failures: u32,
    pub last_failure_time: Option<u64>,
}

impl View for DeviceUIInfo {
    type V = DeviceUIView;

    open spec fn view(&self) -> DeviceUIView {
        DeviceUIView {
            ip: self.ip,
            mac: text_view(self.mac),
            hostname: text_view(self.hostname),
            vendor: text_view(self.vendor),
            status: self.status,
            first_seen: self.first_seen,
            last_seen: self.last_seen,
            last_status_change: self.last_status_change,
            offline_at: self.offline_at,
            offline_events: self.offline_events@,
            consecutive_failures: self.consecutive_failures,
            last_failure_time: self.last_failure_time,
        }
    }
}

/// A closed offline event as it is handed to storage: when the device
/// went away, when it came back, and the milliseconds in between.
pub type ClosedEvent = (i64, Option<i64>, u64);

/// Milliseconds from `from` to `to`, reduced modulo two to the 64th: the
/// plain difference wherever `to` is not before `from`.
pub open spec fn elapsed_ms(from: i64, to: i64) -> u64 {
    ((to - from) % 0x1_0000_0000_0000_0000) as u64
}

/// A span of `ms` milliseconds as whole hours, minutes past the hour and
/// seconds past the minute, each counted towards zero, so that a span
/// that runs backwards gives the same numbers with a minus.
pub open spec fn clock_of(ms: int) -> (i64, i64, i64) {
    let size = if ms < 0 {
        -ms
    } else {
        ms
    };
    let secs = size / 1000;
    let h = secs / 3600;
    let m = (secs / 60) % 60;
    let s = secs % 60;
    if ms < 0 {
        ((-h) as i64, (-m) as i64, (-s) as i64)
    } else {
        (h as i64, m as i64, s as i64)
    }
}

/// How many offline events there are, and how long they lasted on
/// average, in milliseconds, rounded down; 0 where there is none.
pub open spec fn offline_average(events: Seq<OfflineEvent>) -> (usize, u64) {
    (
        events.len() as usize,
        if events.len() > 0 {
            (total_duration(events) / events.len() as int) as u64
        } else {
            0
        },
    )
}

/// The durations of `events` added up.
pub open spec fn total_duration(events: Seq<OfflineEvent>) -> int
    decreases events.len(),
{
    if events.len() == 0 {
        0
    } else {
        total_duration(events.drop_last()) + events.last().duration_ms
    }
}

/// Counts the offline events and averages their durations.
pub fn offline_summary(events: &Vec<OfflineEvent>) -> (summary: (usize, u64))
    ensures
        summary == offline_average(events@),
{
    let mut total: u128 = 0;
    let mut i: usize = 0;
    assert(events@.take(0) =~= Seq::<OfflineEvent>::empty());
    while i < events.len()
        invariant
            i <= events.len(),
            total == total_duration(events@.take(i as int)),
            total <= i * u64::MAX,
        decreases events.len() - i,
    {
        assert(events@.take(i + 1).drop_last() =~= events@.take(i as int));
        assert(i * u64::MAX + u64::MAX == (i + 1) * u64::MAX) by (nonlinear_arith);
        assert((i + 1) * u64::MAX <= usize::MAX * u64::MAX) by (nonlinear_arith)
            requires
                i + 1 <= usize::MAX,
        ;
        total = total + (events[i].duration_ms as u128);
        i = i + 1;
    }
    assert(events@.take(events@.len() as int) =~= events@);
    if events.len() > 0 {
        let n = events.len() as u128;
        assert(total / n <= u64::MAX) by (nonlinear_arith)
            requires
                n > 0,
                total <= n * u64::MAX,
        ;
        (events.len(), (total / n) as u64)
    } else {
        (0, 0)
    }
}

/// The rank by which devices are grouped in the list: those that answer
/// first, the unstable next, those that are gone last.
pub open spec fn status_rank_spec(status: DeviceUIStatus) -> u8 {
    match status {
        DeviceUIStatus::Online | DeviceUIStatus::New => 0,
        DeviceUIStatus::Unstable => 1,
        DeviceUIStatus::Offline | DeviceUIStatus::Lost => 2,
    }
}

/// The rank by which devices are grouped in the list.
pub fn status_rank(status: &DeviceUIStatus) -> (rank: u8)
    ensures
        rank == status_rank_spec(*status),
{
    match status {
        DeviceUIStatus::Online | DeviceUIStatus::New => 0,
        DeviceUIStatus::Unstable => 1,
        DeviceUIStatus::Offline | DeviceUIStatus::Lost => 2,
    }
}

/// Milliseconds from `from` to `to`, wrapped into 64 bits.
pub fn elapsed_between(from: i64, to: i64) -> (ms: u64)
    ensures
        ms == elapsed_ms(from, to),
        to >= from ==> ms == to - from,
{
    let d: i128 = (to as i128) - (from as i128);
    if d >= 0 {
        d as u64
    } else {
        (d + 0x1_0000_0000_0000_0000) as u64
    }
}

impl OfflineEvent {
    /// Whether the device has not come back yet.
    pub open spec fn is_open(self) -> bool {
        self.online_at is None
    }

    /// An open event has no duration yet, and a closed one lasts from its
    /// start to its end.
    pub open spec fn wf(self) -> bool {
        match self.online_at {
            None => self.duration_ms == 0,
            Some(back) => self.duration_ms == elapsed_ms(self.offline_at, back),
        }
    }

    /// The event that opens at `now`.
    pub open spec fn opened(now: i64) -> OfflineEvent {
        OfflineEvent { offline_at: now, online_at: None, duration_ms: 0 }
    }

    /// This event, closed at `now`.
    pub open spec fn closed(self, now: i64) -> OfflineEvent {
        OfflineEvent {
            offline_at: self.offline_at,
            online_at: Some(now),
            duration_ms: elapsed_ms(self.offline_at, now),
        }
    }
}

/// How many of `events` are open.
pub open spec fn open_events(events: Seq<OfflineEvent>) -> nat
    decreases events.len(),
{
    if events.len() == 0 {
        0
    } else {
        open_events(events.drop_last()) + if events.last().is_open() {
            1nat
        } else {
            0nat
        }
    }
}

impl DeviceUIView {
    /// Whether a success now closes an offline event: the device has
    /// failed since it last answered and its latest event is open.
    pub open spec fn closes_event(self) -> bool {
        self.consecutive_failures > 0 && self.offline_events.len() > 0
            && self.offline_events.last().is_open()
    }

    /// The events agree with the failure count: every event but the
    /// latest is closed, the latest is open exactly while the device has
    /// failed twice or more in a row, and every event is well formed.
    pub open spec fn wf(self) -> bool {
        &&& forall|i: int|
            0 <= i < self.offline_events.len() ==> (#[trigger] self.offline_events[i]).wf()
        &&& forall|i: int|
            0 <= i < self.offline_events.len() - 1 ==> !(#[trigger] self.offline_events[i]).is_open()
        &&& (self.offline_events.len() > 0 && self.offline_events.last().is_open())
            <==> self.consecutive_failures >= UNSTABLE_THRESHOLD
    }

    /// The device after a probe that it answered at `now`.
    ///
    /// The answer refreshes the time the device was last seen. Where the
    /// device had failed since it last answered, its open offline event, if
    /// any, is closed, the failures are forgotten and the device is online;
    /// where it had not, nothing else changes.
    pub open spec fn after_success(self, now: i64) -> DeviceUIView {
        if self.consecutive_failures > 0 {
            DeviceUIView {
                offline_events: if self.closes_event() {
                    self.offline_events.update(
                        self.offline_events.len() - 1,
                        self.offline_events.last().closed(now),
                    )
                } else {
                    self.offline_events
                },
                consecutive_failures: 0,
                status: DeviceUIStatus::Online,
                last_failure_time: None,
                last_seen: now,
                ..self
            }
        } else {
            DeviceUIView { last_seen: now, ..self }
        }
    }

    /// What a probe answered at `now` hands to storage: the event that it
    /// closes, where it closes one.
    pub open spec fn closed_by_success(self, now: i64) -> Option<ClosedEvent> {
        if self.closes_event() {
            let event = self.offline_events.last().closed(now);
            Some((event.offline_at, event.online_at, event.duration_ms))
        } else {
            None
        }
    }

    /// The failure count after one more failure; it stops at the largest
    /// number it can hold.
    pub open spec fn failures_after_failure(self) -> u32 {
        if self.consecutive_failures < u32::MAX {
            (self.consecutive_failures + 1) as u32
        } else {
            u32::MAX
        }
    }

    /// The device after a probe that it failed at `now`, `mono` on the
    /// monotonic clock.
    pub open spec fn after_failure(self, now: i64, mono: u64) -> DeviceUIView {
        let failures = self.failures_after_failure();
        DeviceUIView {
            consecutive_failures: failures,
            last_failure_time: Some(mono),
            status: if failures == UNSTABLE_THRESHOLD {
                DeviceUIStatus::Unstable
            } else if failures >= OFFLINE_THRESHOLD {
                DeviceUIStatus::Offline
            } else {
                self.status
            },
            offline_events: if failures == UNSTABLE_THRESHOLD {
                self.offline_events.push(OfflineEvent::opened(now))
            } else {
                self.offline_events
            },
            ..self
        }
    }

    /// The device after one probe, answered or failed.
    pub open spec fn after_probe(self, success: bool, now: i64, mono: u64) -> DeviceUIView {
        if success {
            self.after_success(now)
        } else {
            self.after_failure(now, mono)
        }
    }

    /// How long the device has been known: from first to last answer.
    pub open spec fn alive_ms(self) -> int {
        self.last_seen - self.first_seen
    }
}

impl Clone for DeviceUIInfo {
    fn clone(&self) -> (res: Self)
        ensures
            res@ == self@,
    {
        let mut events: Vec<OfflineEvent> = Vec::new();
        let mut i: usize = 0;
        while i < self.offline_events.len()
            invariant
                i <= self.offline_events.len(),
                events@ == self.offline_events@.take(i as int),
            decreases self.offline_events.len() - i,
        {
            events.push(self.offline_events[i]);
            assert(events@ =~= self.offline_events@.take(i + 1));
            i = i + 1;
        }
        assert(events@ =~= self.offline_events@);
        DeviceUIInfo {
            ip: self.ip,
            mac: clone_text(&self.mac),
            hostname: clone_text(&self.hostname),
            vendor: clone_text(&self.vendor),
            status: self.status,
            first_seen: self.first_seen,
            last_seen: self.last_seen,
            last_status_change: self.last_status_change,
            offline_at: self.offline_at,
            offline_events: events,
            consecutive_failures: self.consecutive_failures,
            last_failure_time: self.last_failure_time,
        }
    }
}

impl DeviceUIInfo {
    /// The dashboard's record of a device that the scanner reports, as it
    /// is when the device first shows up at `mono`: online, with no
    /// failures and no offline events.
    pub open spec fn from_spec(info: DeviceInfo, mono: u64) -> DeviceUIView {
        DeviceUIView {
            ip: info.ip,
            mac: text_view(info.mac),
            hostname: text_view(info.hostname),
            vendor: text_view(info.vendor),
            status: DeviceUIStatus::Online,
            first_seen: info.first_seen,
            last_seen: info.last_seen,
            last_status_change: mono,
            offline_at: None,
            offline_events: Seq::empty(),
            consecutive_failures: 0,
            last_failure_time: None,
        }
    }

    /// The dashboard's record of a device that the scanner reports.
    pub fn from(info: &DeviceInfo, mono: u64) -> (device: Self)
        ensures
            device@ == Self::from_spec(*info, mono),
            device@.wf(),
    {
        DeviceUIInfo {
            ip: info.ip,
            mac: clone_text(&info.mac),
            hostname: clone_text(&info.hostname),
            vendor: clone_text(&info.vendor),
            status: DeviceUIStatus::Online,
            first_seen: info.first_seen,
            last_seen: info.last_seen,
            last_status_change: mono,
            offline_at: None,
            offline_events: Vec::new(),
            consecutive_failures: 0,
            last_failure_time: None,
        }
    }

    /// How long the device has been known, as hours, minutes past the
    /// hour and seconds past the minute.
    pub fn alive_clock(&self) -> (clock: (i64, i64, i64))
        ensures
            clock == clock_of(self@.alive_ms()),
    {
        let ms = self.alive_span();
        let negative = ms < 0;
        let size: u128 = if negative {
            (-ms) as u128
        } else {
            ms as u128
        };
        let secs: u128 = size / 1000;
        let h: i64 = (secs / 3600) as i64;
        let m: i64 = ((secs / 60) % 60) as i64;
        let s: i64 = (secs % 60) as i64;
        if negative {
            (-h, -m, -s)
        } else {
            (h, m, s)
        }
    }

    /// How long the device has been known, in milliseconds.
    pub fn alive_span(&self) -> (ms: i128)
        ensures
            ms == self@.alive_ms(),
    {
        (self.last_seen as i128) - (self.first_seen as i128)
    }

    /// Takes note of a probe that the device answered at `now`.
    ///
    /// The time last seen is refreshed. A device that had failed since it
    /// last answered is online again with no failures, and where its
    /// latest offline event was open, that event is closed at `now` and
    /// returned. For a device that had not failed nothing else changes.
    pub fn record_success(&mut self, now: i64) -> (closed: Option<ClosedEvent>)
        ensures
            final(self)@ == old(self)@.after_success(now),
            closed == old(self)@.closed_by_success(now),
            old(self)@.wf() ==> final(self)@.wf(),
            old(self)@.wf() ==> (closed is Some <==> old(self).consecutive_failures
                >= UNSTABLE_THRESHOLD),
    {
        proof {
            if self@.wf() {
                lemma_success_keeps_wf(self@, now);
            }
        }
        let mut closed: Option<ClosedEvent> = None;
        self.last_seen = now;
        if self.consecutive_failures > 0 {
            let count = self.offline_events.len();
            if count > 0 {
                let last = self.offline_events[count - 1];
                if last.online_at.is_none() {
                    let duration_ms = elapsed_between(last.offline_at, now);
                    let event = OfflineEvent {
                        offline_at: last.offline_at,
                        online_at: Some(now),
                        duration_ms,
                    };
                    self.offline_events.set(count - 1, event);
                    closed = Some((event.offline_at, event.online_at, event.duration_ms));
                }
            }
            self.consecutive_failures = 0;
            self.status = DeviceUIStatus::Online;
            self.last_failure_time = None;
        }
        closed
    }

    /// Takes note of a probe that the device failed at `now`, `mono` on
    /// the monotonic clock.
    ///
    /// The second failure in a row makes the device unstable and opens an
    /// offline event; from the fifth on the device is offline.
    pub fn record_failure(&mut self, now: i64, mono: u64)
        ensures
            final(self)@ == old(self)@.after_failure(now, mono),
            old(self)@.wf() ==> final(self)@.wf(),
    {
        if self.consecutive_failures < u32::MAX {
            self.consecutive_failures = self.consecutive_failures + 1;
        }
        self.last_failure_time = Some(mono);
        if self.consecutive_failures == UNSTABLE_THRESHOLD {
            self.status = DeviceUIStatus::Unstable;
            self.offline_events.push(
                OfflineEvent { offline_at: now, online_at: None, duration_ms: 0 },
            );
        } else if self.consecutive_failures >= OFFLINE_THRESHOLD {
            self.status = DeviceUIStatus::Offline;
        }
    }
}

/// A well-formed device has at most one open offline event.
pub proof fn lemma_at_most_one_open(device: DeviceUIView)
    requires
        device.wf(),
    ensures
        open_events(device.offline_events) <= 1,
        open_events(device.offline_events) == 1 <==> device.consecutive_failures
            >= UNSTABLE_THRESHOLD,
{
    let events = device.offline_events;
    if events.len() > 0 {
        lemma_closed_prefix(events.drop_last());
    }
}

/// Events that are all closed count no open event.
proof fn lemma_closed_prefix(events: Seq<OfflineEvent>)
    requires
        forall|i: int| 0 <= i < events.len() ==> !(#[trigger] events[i]).is_open(),
    ensures
        open_events(events) == 0,
    decreases events.len(),
{
    if events.len() > 0 {
        lemma_closed_prefix(events.drop_last());
    }
}

/// The hysteresis of presence: from a well-formed device that answers,
/// two failures in a row make it unstable with exactly one open event,
/// three more keep that event open and make it offline at the fifth, and
/// the next success closes that one event, with the time in between as
/// its duration, and brings the device back online.
pub proof fn lemma_hysteresis(device: DeviceUIView, t: Seq<i64>, mono: u64)
    requires
        device.wf(),
        device.consecutive_failures == 0,
        t.len() == 6,
    ensures
        ({
            let f1 = device.after_failure(t[0], mono);
            let f2 = f1.after_failure(t[1], mono);
            let f3 = f2.after_failure(t[2], mono);
            let f4 = f3.after_failure(t[3], mono);
            let f5 = f4.after_failure(t[4], mono);
            let back = f5.after_success(t[5]);
            &&& f1.status == device.status
            &&& open_events(f1.offline_events) == 0
            &&& f2.status == DeviceUIStatus::Unstable
            &&& open_events(f2.offline_events) == 1
            &&& f2.offline_events.last() == OfflineEvent::opened(t[1])
            &&& f3.status == DeviceUIStatus::Unstable
            &&& f4.status == DeviceUIStatus::Unstable
            &&& f5.status == DeviceUIStatus::Offline
            &&& f3.offline_events == f2.offline_events
            &&& f4.offline_events == f2.offline_events
            &&& f5.offline_events == f2.offline_events
            &&& back.status == DeviceUIStatus::Online
            &&& back.consecutive_failures == 0
            &&& open_events(back.offline_events) == 0
            &&& back.offline_events.len() == f2.offline_events.len()
            &&& back.offline_events.last().offline_at == t[1]
            &&& back.offline_events.last().online_at == Some(t[5])
            &&& back.offline_events.last().duration_ms == elapsed_ms(t[1], t[5])
            &&& f5.closed_by_success(t[5]) == Some((t[1], Some(t[5]), elapsed_ms(t[1], t[5])))
            &&& back.wf()
        }),
{
    let f1 = device.after_failure(t[0], mono);
    let f2 = f1.after_failure(t[1], mono);
    let f3 = f2.after_failure(t[2], mono);
    let f4 = f3.after_failure(t[3], mono);
    let f5 = f4.after_failure(t[4], mono);
    let back = f5.after_success(t[5]);
    lemma_failure_keeps_wf(device, t[0], mono);
    lemma_failure_keeps_wf(f1, t[1], mono);
    lemma_failure_keeps_wf(f2, t[2], mono);
    lemma_failure_keeps_wf(f3, t[3], mono);
    lemma_failure_keeps_wf(f4, t[4], mono);
    lemma_success_keeps_wf(f5, t[5]);
    lemma_at_most_one_open(f1);
    lemma_at_most_one_open(f2);
    lemma_at_most_one_open(back);
}

/// A failure leaves a well-formed device well formed.
pub proof fn lemma_failure_keeps_wf(device: DeviceUIView, now: i64, mono: u64)
    requires
        device.wf(),
    ensures
        device.after_failure(now, mono).wf(),
{
    let after = device.after_failure(now, mono);
    if after.consecutive_failures == UNSTABLE_THRESHOLD {
        assert forall|i: int| 0 <= i < after.offline_events.len() - 1 implies !(
        #[trigger] after.offline_events[i]).is_open() by {
            if i < device.offline_events.len() - 1 {
                assert(!device.offline_events[i].is_open());
            }
        }
    }
}

/// A success leaves a well-formed device well formed.
pub proof fn lemma_success_keeps_wf(device: DeviceUIView, now: i64)
    requires
        device.wf(),
    ensures
        device.after_success(now).wf(),
        device.closed_by_success(now) is Some <==> device.consecutive_failures
            >= UNSTABLE_THRESHOLD,
{
    let after = device.after_success(now);
    assert forall|i: int| 0 <= i < after.offline_events.len() - 1 implies !(
    #[trigger] after.offline_events[i]).is_open() by {
        assert(!device.offline_events[i].is_open());
    }
}

} // verus!
