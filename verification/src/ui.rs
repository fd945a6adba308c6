//! The state behind the dashboard: the devices it tracks, and where the
//! reader stands in the list.
//!
//! Nothing here draws. The caller feeds scan results and key presses in
//! and draws what the state says.

use vstd::prelude::*;

use crate::address::IpAddress;
use crate::device::{clone_text, text_view, DeviceInfo, DeviceStatus};
use crate::listing::{in_listing_order, one_address_each, sort_devices, ui_views};
use crate::presence::{ClosedEvent, DeviceUIView};

pub use crate::listing::SortMode;
pub use crate::presence::{DeviceUIInfo, DeviceUIStatus, OfflineEvent};

verus! {

/// Rows of the screen that the list cannot use.
pub const CHROME_ROWS: usize = 6;

/// What the dashboard shows.
#[derive(Clone, Copy, Debug, PartialEq, Eq, Structural)]
pub enum UIViewMode {
    /// The list of devices.
    List,
    /// The details of the highlighted device.
    Detail,
}

/// A key press, as far as the dashboard tells keys apart.
#[derive(Clone, Copy, Debug, PartialEq, Eq, Structural)]
pub enum UiKey {
    /// `q` or escape.
    Quit,
    /// Enter.
    Enter,
    /// `s`.
    ToggleSort,
    /// Up or `k`.
    Up,
    /// Down or `j`.
    Down,
    /// Page up.
    PageUp,
    /// Page down.
    PageDown,
    /// Any other key.
    Other,
}

/// What the caller does after a key press.
#[derive(Clone, Copy, Debug, PartialEq, Eq, Structural)]
pub enum UiAction {
    /// Draw the screen again.
    Redraw,
    /// Stop the dashboard, after drawing once more.
    Quit,
    /// Nothing.
    Ignore,
}

/// The devices of the dashboard and the reader's place among them.
#[derive(Debug)]
pub struct CharacterUI {
    /// The tracked devices, one record for each address.
    pub devices: Vec<DeviceUIInfo>,
    /// What the list is ordered by.
    pub sort_mode: SortMode,
    /// The highlighted row, counted in listing order.
    pub highlight_index: usize,
    /// The first row shown.
    pub scroll_offset: usize,
    /// What is shown.
    pub view_mode: UIViewMode,
    /// The first event shown in the details.
    pub detail_scroll_offset: usize,
}

/// The part of the state that keys move.
pub struct Cursor {
    pub sort_mode: SortMode,
    pub highlight_index: usize,
    pub scroll_offset: usize,
    pub view_mode: UIViewMode,
    pub detail_scroll_offset: usize,
}

/// Whether `devices` holds a record for `ip`.
pub open spec fn listed(devices: Seq<DeviceUIView>, ip: IpAddress) -> bool {
    exists|i: int| 0 <= i < devices.len() && (#[trigger] devices[i]).ip == ip
}

/// Where `devices` holds the record for `ip`.
pub open spec fn place(devices: Seq<DeviceUIView>, ip: IpAddress) -> int {
    choose|i: int| 0 <= i < devices.len() && (#[trigger] devices[i]).ip == ip
}

/// `devices` with the record for `ip` replaced by what `change` makes of
/// it; unchanged where there is no such record.
pub open spec fn changed_at(
    devices: Seq<DeviceUIView>,
    ip: IpAddress,
    change: spec_fn(DeviceUIView) -> DeviceUIView,
) -> Seq<DeviceUIView> {
    if listed(devices, ip) {
        devices.update(place(devices, ip), change(devices[place(devices, ip)]))
    } else {
        devices
    }
}

/// A record refreshed from what the scanner reports: the looked-up texts
/// and the time last seen are taken over, and a new status is noted with
/// the time of the change.
pub open spec fn refreshed(
    device: DeviceUIView,
    info: DeviceInfo,
    status: DeviceUIStatus,
    mono: u64,
) -> DeviceUIView {
    DeviceUIView {
        mac: text_view(info.mac),
        hostname: text_view(info.hostname),
        vendor: text_view(info.vendor),
        last_seen: info.last_seen,
        status,
        last_status_change: if device.status != status {
            mono
        } else {
            device.last_status_change
        },
        ..device
    }
}

/// The records after what the scanner reports of a device is taken over
/// with status `status`: its record is refreshed where there is one, and
/// a fresh record with that status is appended where there is none.
pub open spec fn taken_over(
    devices: Seq<DeviceUIView>,
    info: DeviceInfo,
    status: DeviceUIStatus,
    mono: u64,
) -> Seq<DeviceUIView> {
    if listed(devices, info.ip) {
        changed_at(devices, info.ip, |d: DeviceUIView| refreshed(d, info, status, mono))
    } else {
        devices.push(DeviceUIView { status, ..DeviceUIInfo::from_spec(info, mono) })
    }
}

/// The records after one change that the scanner reports is fed in.
pub open spec fn change_applied(
    devices: Seq<DeviceUIView>,
    change: DeviceStatus,
    now: i64,
    mono: u64,
) -> Seq<DeviceUIView> {
    match change {
        DeviceStatus::Added(info) => changed_at(
            taken_over(devices, info, DeviceUIStatus::New, mono),
            info.ip,
            |d: DeviceUIView| d.after_probe(true, now, mono),
        ),
        DeviceStatus::Removed(info) => changed_at(
            devices,
            info.ip,
            |d: DeviceUIView| d.after_probe(false, now, mono),
        ),
        DeviceStatus::Stable(info) => changed_at(
            taken_over(devices, info, DeviceUIStatus::Online, mono),
            info.ip,
            |d: DeviceUIView| d.after_probe(true, now, mono),
        ),
    }
}

/// The offline event that feeding in one change closes and hands to
/// storage: the one that the answer of an added or stable device closes.
pub open spec fn change_closes(
    devices: Seq<DeviceUIView>,
    change: DeviceStatus,
    now: i64,
    mono: u64,
) -> Option<ClosedEvent> {
    match change {
        DeviceStatus::Added(info) => {
            let taken = taken_over(devices, info, DeviceUIStatus::New, mono);
            taken[place(taken, info.ip)].closed_by_success(now)
        },
        DeviceStatus::Stable(info) => {
            let taken = taken_over(devices, info, DeviceUIStatus::Online, mono);
            taken[place(taken, info.ip)].closed_by_success(now)
        },
        DeviceStatus::Removed(_) => None,
    }
}

/// A record marked offline at `now`: one that is gone already stays as
/// it is.
pub open spec fn marked_offline(device: DeviceUIView, now: i64, mono: u64) -> DeviceUIView {
    if device.status != DeviceUIStatus::Offline && device.status != DeviceUIStatus::Lost {
        DeviceUIView {
            status: DeviceUIStatus::Offline,
            last_status_change: mono,
            offline_at: Some(now),
            ..device
        }
    } else {
        device
    }
}

/// A record marked lost: only one that is offline can be.
pub open spec fn marked_lost(device: DeviceUIView, mono: u64) -> DeviceUIView {
    if device.status == DeviceUIStatus::Offline {
        DeviceUIView { status: DeviceUIStatus::Lost, last_status_change: mono, ..device }
    } else {
        device
    }
}

/// How many devices the dashboard holds, in all and of each status.
#[derive(Clone, Copy, Debug, PartialEq, Eq, Structural)]
pub struct StatusCounts {
    pub total: usize,
    pub online: usize,
    pub offline: usize,
    pub unstable: usize,
    pub new: usize,
    pub lost: usize,
}

/// How many of `devices` have the status `status`.
pub open spec fn with_status(devices: Seq<DeviceUIView>, status: DeviceUIStatus) -> nat
    decreases devices.len(),
{
    if devices.len() == 0 {
        0
    } else {
        with_status(devices.drop_last(), status) + if devices.last().status == status {
            1nat
        } else {
            0nat
        }
    }
}

/// Rows that the list can show on a screen of `height` rows.
pub open spec fn visible_rows_spec(height: u16) -> usize {
    if height >= CHROME_ROWS {
        (height - CHROME_ROWS) as usize
    } else {
        0
    }
}

/// The smaller of two numbers.
pub open spec fn least(a: int, b: int) -> int {
    if a <= b {
        a
    } else {
        b
    }
}

/// The rows to show and the place of the highlight, for a list of
/// `device_count` records: the first row shown, the row after the last
/// shown, the highlighted row and the scroll offset, each brought inside
/// the list.
pub open spec fn visible_range(
    device_count: usize,
    visible_rows: usize,
    highlight_index: usize,
    scroll_offset: usize,
) -> (usize, usize, usize, usize) {
    let last = if device_count > 0 {
        device_count - 1
    } else {
        0
    };
    let hi = least(highlight_index as int, last);
    let so = least(scroll_offset as int, hi);
    let start = least(so, last);
    let end = least(start + visible_rows, device_count as int);
    (start as usize, end as usize, hi as usize, so as usize)
}

impl Cursor {
    /// The cursor after the highlight moves up one row.
    pub open spec fn up(self) -> Cursor {
        if self.highlight_index > 0 {
            let hi = (self.highlight_index - 1) as usize;
            Cursor {
                highlight_index: hi,
                scroll_offset: if hi < self.scroll_offset {
                    hi
                } else {
                    self.scroll_offset
                },
                ..self
            }
        } else {
            self
        }
    }

    /// The cursor after the highlight moves down one row in a list of
    /// `count` records of which `visible` rows show.
    pub open spec fn down(self, count: usize, visible: usize) -> Cursor {
        if count > 0 && self.highlight_index < count - 1 {
            let hi = (self.highlight_index + 1) as usize;
            Cursor {
                highlight_index: hi,
                scroll_offset: if hi >= self.scroll_offset + visible {
                    (hi + 1 - visible) as usize
                } else {
                    self.scroll_offset
                },
                ..self
            }
        } else {
            self
        }
    }

    /// The cursor after the highlight moves up one page.
    pub open spec fn page_up(self, visible: usize) -> Cursor {
        if self.highlight_index > 0 {
            let hi = if self.highlight_index >= visible {
                (self.highlight_index - visible) as usize
            } else {
                0
            };
            Cursor { highlight_index: hi, scroll_offset: hi, ..self }
        } else {
            self
        }
    }

    /// The cursor after the highlight moves down one page; the page then
    /// ends at the highlight.
    pub open spec fn page_down(self, count: usize, visible: usize) -> Cursor {
        if count > 0 && self.highlight_index < count - 1 {
            let hi = least(self.highlight_index + visible, count - 1);
            Cursor {
                highlight_index: hi as usize,
                scroll_offset: if hi + 1 >= visible {
                    (hi + 1 - visible) as usize
                } else {
                    0
                },
                ..self
            }
        } else {
            self
        }
    }

    /// The cursor and the action that follow a key press.
    pub open spec fn after_key(self, key: UiKey, count: usize, visible: usize) -> (
        Cursor,
        UiAction,
    ) {
        let list = self.view_mode == UIViewMode::List;
        match key {
            UiKey::Quit => if list {
                (self, UiAction::Quit)
            } else {
                (
                    Cursor { view_mode: UIViewMode::List, detail_scroll_offset: 0, ..self },
                    UiAction::Redraw,
                )
            },
            UiKey::Enter => if list {
                (
                    Cursor { view_mode: UIViewMode::Detail, detail_scroll_offset: 0, ..self },
                    UiAction::Redraw,
                )
            } else {
                (self, UiAction::Redraw)
            },
            UiKey::ToggleSort => if list {
                (
                    Cursor {
                        sort_mode: match self.sort_mode {
                            SortMode::Ip => SortMode::AliveDuration,
                            SortMode::AliveDuration => SortMode::Ip,
                        },
                        ..self
                    },
                    UiAction::Redraw,
                )
            } else {
                (self, UiAction::Redraw)
            },
            UiKey::Up => if list {
                (self.up(), UiAction::Redraw)
            } else if self.detail_scroll_offset > 0 {
                (
                    Cursor {
                        detail_scroll_offset: (self.detail_scroll_offset - 1) as usize,
                        ..self
                    },
                    UiAction::Redraw,
                )
            } else {
                (self, UiAction::Redraw)
            },
            UiKey::Down => if list {
                (self.down(count, visible), UiAction::Redraw)
            } else if self.detail_scroll_offset < usize::MAX {
                (
                    Cursor {
                        detail_scroll_offset: (self.detail_scroll_offset + 1) as usize,
                        ..self
                    },
                    UiAction::Redraw,
                )
            } else {
                (self, UiAction::Redraw)
            },
            UiKey::PageUp => if list {
                (self.page_up(visible), UiAction::Redraw)
            } else {
                (self, UiAction::Redraw)
            },
            UiKey::PageDown => if list {
                (self.page_down(count, visible), UiAction::Redraw)
            } else {
                (self, UiAction::Redraw)
            },
            UiKey::Other => (self, UiAction::Ignore),
        }
    }
}

/// Rows that the list can show on a screen of `height` rows.
pub fn visible_rows(height: u16) -> (rows: usize)
    ensures
        rows == visible_rows_spec(height),
{
    let rows = height as usize;
    if rows >= CHROME_ROWS {
        rows - CHROME_ROWS
    } else {
        0
    }
}

impl CharacterUI {
    /// The reader's place.
    pub open spec fn cursor(self) -> Cursor {
        Cursor {
            sort_mode: self.sort_mode,
            highlight_index: self.highlight_index,
            scroll_offset: self.scroll_offset,
            view_mode: self.view_mode,
            detail_scroll_offset: self.detail_scroll_offset,
        }
    }

    /// The views of the tracked devices.
    pub open spec fn views(self) -> Seq<DeviceUIView> {
        ui_views(self.devices@)
    }

    /// Every address has one record, and every record is well formed.
    pub open spec fn wf(self) -> bool {
        &&& one_address_each(self.views())
        &&& forall|i: int| 0 <= i < self.views().len() ==> (#[trigger] self.views()[i]).wf()
    }

    /// A dashboard that tracks nothing yet, showing the list by address.
    pub fn new() -> (ui: Self)
        ensures
            ui.devices@.len() == 0,
            ui.sort_mode == SortMode::Ip,
            ui.highlight_index == 0,
            ui.scroll_offset == 0,
            ui.view_mode == UIViewMode::List,
            ui.detail_scroll_offset == 0,
            ui.wf(),
    {
        CharacterUI {
            devices: Vec::new(),
            sort_mode: SortMode::Ip,
            highlight_index: 0,
            scroll_offset: 0,
            view_mode: UIViewMode::List,
            detail_scroll_offset: 0,
        }
    }

    /// Finds the record for `ip`.
    fn find(&self, ip: IpAddress) -> (at: Option<usize>)
        requires
            one_address_each(self.views()),
        ensures
            at is Some <==> listed(self.views(), ip),
            at is Some ==> at->Some_0 == place(self.views(), ip) && at->Some_0
                < self.devices@.len(),
    {
        let mut i: usize = 0;
        while i < self.devices.len()
            invariant
                i <= self.devices.len(),
                one_address_each(self.views()),
                forall|k: int| 0 <= k < i ==> self.devices@[k].ip != ip,
            decreases self.devices.len() - i,
        {
            if self.devices[i].ip == ip {
                assert(self.views()[i as int].ip == ip);
                let ghost p = place(self.views(), ip);
                assert(self.views()[p].ip == ip);
                assert(p == i) by {
                    if p < i {
                        assert(self.views()[p].ip != self.views()[i as int].ip);
                    } else if p > i {
                        assert(self.views()[i as int].ip != self.views()[p].ip);
                    }
                }
                return Some(i);
            }
            i = i + 1;
        }
        assert forall|k: int| 0 <= k < self.views().len() implies (#[trigger] self.views()[k]).ip
            != ip by {
            assert(self.devices@[k].ip != ip);
        }
        None
    }

    /// Takes over what the scanner reports of a device, with the status
    /// the caller gives it: a tracked device is refreshed, an untracked
    /// one is tracked from now on.
    pub fn update_device(&mut self, device: &DeviceInfo, status: DeviceUIStatus, mono: u64)
        requires
            old(self).wf(),
        ensures
            final(self).wf(),
            final(self).cursor() == old(self).cursor(),
            final(self).views() == taken_over(old(self).views(), *device, status, mono),
    {
        let ghost before = self.views();
        match self.find(device.ip) {
            Some(at) => {
                let existing = &mut self.devices[at];
                existing.mac = clone_text(&device.mac);
                existing.hostname = clone_text(&device.hostname);
                existing.vendor = clone_text(&device.vendor);
                existing.last_seen = device.last_seen;
                if existing.status != status {
                    existing.status = status;
                    existing.last_status_change = mono;
                }
                assert(self.views() =~= before.update(
                    at as int,
                    refreshed(before[at as int], *device, status, mono),
                ));
                proof {
                    lemma_update_keeps_one_each(before, at as int, self.views()[at as int]);
                }
            },
            None => {
                let mut info = DeviceUIInfo::from(device, mono);
                info.status = status;
                info.last_status_change = mono;
                let ghost added = info@;
                self.devices.push(info);
                assert(self.views() =~= before.push(added));
                assert forall|i: int, j: int| 0 <= i < j < self.views().len() implies (
                #[trigger] self.views()[i]).ip != (#[trigger] self.views()[j]).ip by {
                    if j < before.len() {
                        assert(before[i].ip != before[j].ip);
                    } else {
                        assert(before[i].ip != device.ip);
                    }
                }
            },
        }
    }

    /// Marks the device at `ip` offline at `now`, unless it is gone
    /// already or not tracked.
    pub fn mark_device_offline(&mut self, ip: &IpAddress, now: i64, mono: u64)
        requires
            old(self).wf(),
        ensures
            final(self).wf(),
            final(self).cursor() == old(self).cursor(),
            final(self).views() == changed_at(
                old(self).views(),
                *ip,
                |d: DeviceUIView| marked_offline(d, now, mono),
            ),
    {
        let ghost before = self.views();
        match self.find(*ip) {
            Some(at) => {
                let device = &mut self.devices[at];
                if device.status != DeviceUIStatus::Offline && device.status
                    != DeviceUIStatus::Lost {
                    device.status = DeviceUIStatus::Offline;
                    device.last_status_change = mono;
                    device.offline_at = Some(now);
                }
                assert(self.views() =~= before.update(
                    at as int,
                    marked_offline(before[at as int], now, mono),
                ));
                proof {
                    lemma_update_keeps_one_each(before, at as int, self.views()[at as int]);
                }
            },
            None => {
                assert(self.views() =~= before);
            },
        }
    }

    /// Marks the device at `ip` lost, where it is tracked and offline.
    pub fn mark_device_lost(&mut self, ip: &IpAddress, mono: u64)
        requires
            old(self).wf(),
        ensures
            final(self).wf(),
            final(self).cursor() == old(self).cursor(),
            final(self).views() == changed_at(
                old(self).views(),
                *ip,
                |d: DeviceUIView| marked_lost(d, mono),
            ),
    {
        let ghost before = self.views();
        match self.find(*ip) {
            Some(at) => {
                let device = &mut self.devices[at];
                if device.status == DeviceUIStatus::Offline {
                    device.status = DeviceUIStatus::Lost;
                    device.last_status_change = mono;
                }
                assert(self.views() =~= before.update(at as int, marked_lost(before[at as int], mono)));
                proof {
                    lemma_update_keeps_one_each(before, at as int, self.views()[at as int]);
                }
            },
            None => {
                assert(self.views() =~= before);
            },
        }
    }

    /// Feeds the result of one probe of `ip` into the presence of the
    /// device there.
    ///
    /// A tracked device moves as its presence says. The result is the
    /// offline event that a success closed, for storage; there is none
    /// for a failure, for a success that closed nothing, or for an
    /// address that is not tracked, which changes nothing.
    pub fn update_device_status(
        &mut self,
        ip: &IpAddress,
        ping_success: bool,
        now: i64,
        mono: u64,
    ) -> (closed: Option<ClosedEvent>)
        requires
            old(self).wf(),
        ensures
            final(self).wf(),
            final(self).cursor() == old(self).cursor(),
            final(self).views() == changed_at(
                old(self).views(),
                *ip,
                |d: DeviceUIView| d.after_probe(ping_success, now, mono),
            ),
            closed == if listed(old(self).views(), *ip) && ping_success {
                old(self).views()[place(old(self).views(), *ip)].closed_by_success(now)
            } else {
                None
            },
    {
        let ghost before = self.views();
        match self.find(*ip) {
            Some(at) => {
                let closed = if ping_success {
                    self.devices[at].record_success(now)
                } else {
                    self.devices[at].record_failure(now, mono);
                    None
                };
                assert(self.views() =~= before.update(
                    at as int,
                    before[at as int].after_probe(ping_success, now, mono),
                ));
                proof {
                    lemma_update_keeps_one_each(before, at as int, self.views()[at as int]);
                }
                closed
            },
            None => {
                assert(self.views() =~= before);
                None
            },
        }
    }

    /// Feeds one change that the scanner reports into the dashboard.
    ///
    /// A device that was added is taken over as new and counted as
    /// answering; one that is stable is taken over as online and counted
    /// as answering; one that was removed is counted as failing. The
    /// result is the offline event that the answer closed, for storage.
    pub fn apply_change(&mut self, change: &DeviceStatus, now: i64, mono: u64) -> (closed: Option<
        ClosedEvent,
    >)
        requires
            old(self).wf(),
        ensures
            final(self).wf(),
            final(self).cursor() == old(self).cursor(),
            final(self).views() == change_applied(old(self).views(), *change, now, mono),
            closed == change_closes(old(self).views(), *change, now, mono),
    {
        match change {
            DeviceStatus::Added(device) => {
                proof {
                    lemma_taken_over_lists(self.views(), *device, DeviceUIStatus::New, mono);
                }
                self.update_device(device, DeviceUIStatus::New, mono);
                self.update_device_status(&device.ip, true, now, mono)
            },
            DeviceStatus::Removed(device) => {
                self.update_device_status(&device.ip, false, now, mono)
            },
            DeviceStatus::Stable(device) => {
                proof {
                    lemma_taken_over_lists(self.views(), *device, DeviceUIStatus::Online, mono);
                }
                self.update_device(device, DeviceUIStatus::Online, mono);
                self.update_device_status(&device.ip, true, now, mono)
            },
        }
    }

    /// The tracked devices in listing order: a rearrangement of the
    /// records that is in listing order, of which there is only one while
    /// every address has one record.
    pub fn get_sorted_devices(&self) -> (list: Vec<DeviceUIInfo>)
        ensures
            ui_views(list@).to_multiset() == self.views().to_multiset(),
            in_listing_order(ui_views(list@), self.sort_mode),
            list@.len() == self.devices@.len(),
    {
        let mut list: Vec<DeviceUIInfo> = Vec::new();
        let mut i: usize = 0;
        while i < self.devices.len()
            invariant
                i <= self.devices.len(),
                ui_views(list@) == self.views().take(i as int),
            decreases self.devices.len() - i,
        {
            let ghost so_far = ui_views(list@);
            let copy = self.devices[i].clone();
            let ghost copied = copy@;
            list.push(copy);
            assert(ui_views(list@) =~= so_far.push(copied));
            assert(self.views().take(i + 1) =~= self.views().take(i as int).push(copied));
            i = i + 1;
        }
        assert(self.views().take(self.devices@.len() as int) =~= self.views());
        sort_devices(&mut list, self.sort_mode);
        list
    }

    /// Counts the devices of each status.
    pub fn status_counts(&self) -> (counts: StatusCounts)
        ensures
            counts.total == self.devices@.len(),
            counts.online == with_status(self.views(), DeviceUIStatus::Online),
            counts.offline == with_status(self.views(), DeviceUIStatus::Offline),
            counts.unstable == with_status(self.views(), DeviceUIStatus::Unstable),
            counts.new == with_status(self.views(), DeviceUIStatus::New),
            counts.lost == with_status(self.views(), DeviceUIStatus::Lost),
    {
        let mut counts = StatusCounts {
            total: self.devices.len(),
            online: 0,
            offline: 0,
            unstable: 0,
            new: 0,
            lost: 0,
        };
        let mut i: usize = 0;
        assert(self.views().take(0) =~= Seq::<DeviceUIView>::empty());
        while i < self.devices.len()
            invariant
                i <= self.devices.len(),
                counts.total == self.devices@.len(),
                counts.online == with_status(self.views().take(i as int), DeviceUIStatus::Online),
                counts.offline == with_status(self.views().take(i as int), DeviceUIStatus::Offline),
                counts.unstable == with_status(
                    self.views().take(i as int),
                    DeviceUIStatus::Unstable,
                ),
                counts.new == with_status(self.views().take(i as int), DeviceUIStatus::New),
                counts.lost == with_status(self.views().take(i as int), DeviceUIStatus::Lost),
                counts.online + counts.offline + counts.unstable + counts.new + counts.lost == i,
            decreases self.devices.len() - i,
        {
            assert(self.views().take(i + 1).drop_last() =~= self.views().take(i as int));
            assert(self.views().take(i + 1).last() == self.devices@[i as int]@);
            match self.devices[i].status {
                DeviceUIStatus::Online => {
                    counts.online = counts.online + 1;
                },
                DeviceUIStatus::Offline => {
                    counts.offline = counts.offline + 1;
                },
                DeviceUIStatus::Unstable => {
                    counts.unstable = counts.unstable + 1;
                },
                DeviceUIStatus::New => {
                    counts.new = counts.new + 1;
                },
                DeviceUIStatus::Lost => {
                    counts.lost = counts.lost + 1;
                },
            }
            i = i + 1;
        }
        assert(self.views().take(self.devices@.len() as int) =~= self.views());
        counts
    }

    /// Moves the highlight up one row.
    pub fn handle_up_key(&mut self)
        ensures
            final(self).cursor() == old(self).cursor().up(),
            final(self).devices == old(self).devices,
    {
        if self.highlight_index > 0 {
            self.highlight_index = self.highlight_index - 1;
            if self.highlight_index < self.scroll_offset {
                self.scroll_offset = self.highlight_index;
            }
        }
    }

    /// Moves the highlight down one row, scrolling where it would leave
    /// the `visible_rows` rows shown.
    pub fn handle_down_key(&mut self, visible_rows: usize)
        ensures
            final(self).cursor() == old(self).cursor().down(
                old(self).devices@.len() as usize,
                visible_rows,
            ),
            final(self).devices == old(self).devices,
    {
        let device_count = self.devices.len();
        if device_count == 0 {
            return ;
        }
        if self.highlight_index < device_count - 1 {
            self.highlight_index = self.highlight_index + 1;
            if self.highlight_index >= visible_rows && self.highlight_index - visible_rows
                >= self.scroll_offset {
                self.scroll_offset = self.highlight_index + 1 - visible_rows;
            }
        }
    }

    /// Moves the highlight up one page.
    pub fn handle_page_up(&mut self, visible_rows: usize)
        ensures
            final(self).cursor() == old(self).cursor().page_up(visible_rows),
            final(self).devices == old(self).devices,
    {
        if self.highlight_index > 0 {
            if self.highlight_index >= visible_rows {
                self.highlight_index = self.highlight_index - visible_rows;
            } else {
                self.highlight_index = 0;
            }
            self.scroll_offset = self.highlight_index;
        }
    }

    /// Moves the highlight down one page.
    pub fn handle_page_down(&mut self, visible_rows: usize)
        ensures
            final(self).cursor() == old(self).cursor().page_down(
                old(self).devices@.len() as usize,
                visible_rows,
            ),
            final(self).devices == old(self).devices,
    {
        let device_count = self.devices.len();
        if device_count == 0 {
            return ;
        }
        if self.highlight_index < device_count - 1 {
            let room = device_count - 1 - self.highlight_index;
            if visible_rows < room {
                self.highlight_index = self.highlight_index + visible_rows;
            } else {
                self.highlight_index = device_count - 1;
            }
            if self.highlight_index + 1 >= visible_rows {
                self.scroll_offset = self.highlight_index + 1 - visible_rows;
            } else {
                self.scroll_offset = 0;
            }
        }
    }

    /// Reacts to a key press on a screen that shows `visible_rows` rows
    /// of the list, and says what to do next.
    pub fn handle_key(&mut self, key: UiKey, visible_rows: usize) -> (action: UiAction)
        ensures
            (final(self).cursor(), action) == old(self).cursor().after_key(
                key,
                old(self).devices@.len() as usize,
                visible_rows,
            ),
            final(self).devices == old(self).devices,
    {
        let list = self.view_mode == UIViewMode::List;
        match key {
            UiKey::Quit => {
                if list {
                    UiAction::Quit
                } else {
                    self.view_mode = UIViewMode::List;
                    self.detail_scroll_offset = 0;
                    UiAction::Redraw
                }
            },
            UiKey::Enter => {
                if list {
                    self.view_mode = UIViewMode::Detail;
                    self.detail_scroll_offset = 0;
                }
                UiAction::Redraw
            },
            UiKey::ToggleSort => {
                if list {
                    self.sort_mode = match self.sort_mode {
                        SortMode::Ip => SortMode::AliveDuration,
                        SortMode::AliveDuration => SortMode::Ip,
                    };
                }
                UiAction::Redraw
            },
            UiKey::Up => {
                if list {
                    self.handle_up_key();
                } else if self.detail_scroll_offset > 0 {
                    self.detail_scroll_offset = self.detail_scroll_offset - 1;
                }
                UiAction::Redraw
            },
            UiKey::Down => {
                if list {
                    self.handle_down_key(visible_rows);
                } else if self.detail_scroll_offset < usize::MAX {
                    self.detail_scroll_offset = self.detail_scroll_offset + 1;
                }
                UiAction::Redraw
            },
            UiKey::PageUp => {
                if list {
                    self.handle_page_up(visible_rows);
                }
                UiAction::Redraw
            },
            UiKey::PageDown => {
                if list {
                    self.handle_page_down(visible_rows);
                }
                UiAction::Redraw
            },
            UiKey::Other => UiAction::Ignore,
        }
    }

    /// Works out which rows to show and where the highlight stands.
    ///
    /// Returns the first row shown, the row after the last shown, the
    /// highlighted row and the scroll offset, each brought inside a list
    /// of `device_count` records.
    pub fn calculate_visible_range_and_highlight(
        device_count: usize,
        visible_rows: usize,
        highlight_index: usize,
        scroll_offset: usize,
    ) -> (range: (usize, usize, usize, usize))
        ensures
            range == visible_range(device_count, visible_rows, highlight_index, scroll_offset),
            range.0 <= range.1 <= device_count,
            range.1 - range.0 <= visible_rows,
            range.3 <= range.2,
            device_count > 0 ==> range.2 < device_count,
    {
        let last = if device_count > 0 {
            device_count - 1
        } else {
            0
        };
        let hi = if highlight_index <= last {
            highlight_index
        } else {
            last
        };
        let so = if scroll_offset <= hi {
            scroll_offset
        } else {
            hi
        };
        let start_idx = if so <= last {
            so
        } else {
            last
        };
        let end_idx = if visible_rows <= device_count - start_idx {
            start_idx + visible_rows
        } else {
            device_count
        };
        (start_idx, end_idx, hi, so)
    }
}

/// A device comes in as new and is online from its next stable
/// observation: an address without a record, reported as added, has a
/// record with status `New` and no failures afterwards, and has status
/// `Online` once it is reported as stable.
pub proof fn lemma_new_then_online(
    devices: Seq<DeviceUIView>,
    added: DeviceInfo,
    stable: DeviceInfo,
    t: Seq<i64>,
    mono: u64,
)
    requires
        one_address_each(devices),
        !listed(devices, added.ip),
        stable.ip == added.ip,
        t.len() == 2,
    ensures
        ({
            let first = change_applied(devices, DeviceStatus::Added(added), t[0], mono);
            let second = change_applied(first, DeviceStatus::Stable(stable), t[1], mono);
            &&& listed(first, added.ip)
            &&& first[place(first, added.ip)].status == DeviceUIStatus::New
            &&& first[place(first, added.ip)].consecutive_failures == 0
            &&& first[place(first, added.ip)].offline_events.len() == 0
            &&& first.len() == devices.len() + 1
            &&& listed(second, added.ip)
            &&& second[place(second, added.ip)].status == DeviceUIStatus::Online
            &&& second.len() == first.len()
        }),
{
    let ip = added.ip;
    let taken = taken_over(devices, added, DeviceUIStatus::New, mono);
    let n = devices.len() as int;
    assert(taken[n].ip == ip);
    lemma_place_is(taken, ip, n);
    let first = change_applied(devices, DeviceStatus::Added(added), t[0], mono);
    assert(first[n].ip == ip);
    lemma_place_is(first, ip, n);
    let again = taken_over(first, stable, DeviceUIStatus::Online, mono);
    assert(again[n].ip == ip);
    lemma_place_is(again, ip, n);
    let second = change_applied(first, DeviceStatus::Stable(stable), t[1], mono);
    assert(second[n].ip == ip);
    lemma_place_is(second, ip, n);
}

/// The place of an address is the one index that holds it.
proof fn lemma_place_is(devices: Seq<DeviceUIView>, ip: IpAddress, at: int)
    requires
        0 <= at < devices.len(),
        devices[at].ip == ip,
        forall|i: int| 0 <= i < devices.len() && i != at ==> (#[trigger] devices[i]).ip != ip,
    ensures
        listed(devices, ip),
        place(devices, ip) == at,
{
}

/// A device whose report was taken over has a record.
pub proof fn lemma_taken_over_lists(
    devices: Seq<DeviceUIView>,
    info: DeviceInfo,
    status: DeviceUIStatus,
    mono: u64,
)
    ensures
        listed(taken_over(devices, info, status, mono), info.ip),
{
    let taken = taken_over(devices, info, status, mono);
    if listed(devices, info.ip) {
        let at = place(devices, info.ip);
        assert(taken[at].ip == info.ip);
    } else {
        assert(taken[taken.len() - 1].ip == info.ip);
    }
}

/// Replacing a record by one for the same address keeps every address at
/// one record.
proof fn lemma_update_keeps_one_each(devices: Seq<DeviceUIView>, at: int, record: DeviceUIView)
    requires
        one_address_each(devices),
        0 <= at < devices.len(),
        record.ip == devices[at].ip,
    ensures
        one_address_each(devices.update(at, record)),
{
    let after = devices.update(at, record);
    assert forall|i: int, j: int| 0 <= i < j < after.len() implies (#[trigger] after[i]).ip != (
    #[trigger] after[j]).ip by {
        assert(devices[i].ip != devices[j].ip);
    }
}

} // verus!
