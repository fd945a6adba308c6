use pingultra::address::IpAddress;
use pingultra::device::{DeviceInfo, DeviceStatus};
use pingultra::listing::{is_listed_before, listing_order, sort_devices, SortMode};
use pingultra::presence::{
    elapsed_between, offline_summary, status_rank, DeviceUIInfo, DeviceUIStatus, OfflineEvent,
};
use pingultra::ui::{visible_rows, CharacterUI, StatusCounts, UIViewMode, UiAction, UiKey};
use std::cmp::Ordering;

fn ip(last: u8) -> IpAddress {
    IpAddress::from_octets(10, 0, 0, last)
}

fn info(last: u8, first_seen: i64, last_seen: i64) -> DeviceInfo {
    DeviceInfo {
        ip: ip(last),
        mac: Some(format!("aa:bb:cc:dd:ee:{:02x}", last)),
        hostname: Some(format!("host-{}", last)),
        vendor: None,
        first_seen,
        last_seen,
        offline_at: None,
    }
}

fn device(last: u8) -> DeviceUIInfo {
    DeviceUIInfo::from(&info(last, 1_000, 2_000), 7)
}

fn open_events(device: &DeviceUIInfo) -> usize {
    device.offline_events.iter().filter(|e| e.online_at.is_none()).count()
}

#[test]
fn fresh_record_is_online_without_history() {
    let device = device(1);
    assert_eq!(device.ip, ip(1));
    assert_eq!(device.mac.as_deref(), Some("aa:bb:cc:dd:ee:01"));
    assert_eq!(device.hostname.as_deref(), Some("host-1"));
    assert_eq!(device.vendor, None);
    assert_eq!(device.status, DeviceUIStatus::Online);
    assert_eq!((device.first_seen, device.last_seen), (1_000, 2_000));
    assert_eq!(device.last_status_change, 7);
    assert_eq!(device.offline_at, None);
    assert!(device.offline_events.is_empty());
    assert_eq!(device.consecutive_failures, 0);
    assert_eq!(device.last_failure_time, None);
}

#[test]
fn hysteresis_runs_its_course() {
    let mut device = device(1);
    device.record_failure(10_000, 1);
    assert_eq!(device.status, DeviceUIStatus::Online);
    assert_eq!(device.consecutive_failures, 1);
    assert_eq!(open_events(&device), 0);
    assert_eq!(device.last_failure_time, Some(1));

    device.record_failure(11_000, 2);
    assert_eq!(device.status, DeviceUIStatus::Unstable);
    assert_eq!(open_events(&device), 1);
    assert_eq!(
        device.offline_events,
        vec![OfflineEvent { offline_at: 11_000, online_at: None, duration_ms: 0 }]
    );

    device.record_failure(12_000, 3);
    assert_eq!(device.status, DeviceUIStatus::Unstable);
    device.record_failure(13_000, 4);
    assert_eq!(device.status, DeviceUIStatus::Unstable);
    assert_eq!(open_events(&device), 1);
    device.record_failure(14_000, 5);
    assert_eq!(device.status, DeviceUIStatus::Offline);
    assert_eq!(device.offline_events.len(), 1);
    assert_eq!(open_events(&device), 1);
    device.record_failure(15_000, 6);
    assert_eq!(device.status, DeviceUIStatus::Offline);
    assert_eq!(device.consecutive_failures, 6);

    let closed = device.record_success(20_500);
    assert_eq!(closed, Some((11_000, Some(20_500), 9_500)));
    assert_eq!(device.status, DeviceUIStatus::Online);
    assert_eq!(device.consecutive_failures, 0);
    assert_eq!(device.last_failure_time, None);
    assert_eq!(
        device.offline_events,
        vec![OfflineEvent { offline_at: 11_000, online_at: Some(20_500), duration_ms: 9_500 }]
    );
}

#[test]
fn single_failure_opens_nothing() {
    let mut device = device(1);
    device.status = DeviceUIStatus::New;
    device.record_failure(10_000, 1);
    assert_eq!(device.status, DeviceUIStatus::New);
    assert_eq!(device.record_success(11_000), None);
    assert!(device.offline_events.is_empty());
    assert_eq!(device.status, DeviceUIStatus::Online);
    assert_eq!(device.consecutive_failures, 0);
    assert_eq!(device.last_failure_time, None);
    assert_eq!(device.last_seen, 11_000);
}

#[test]
fn success_without_failures_only_refreshes_last_seen() {
    for status in [
        DeviceUIStatus::New,
        DeviceUIStatus::Online,
        DeviceUIStatus::Unstable,
        DeviceUIStatus::Offline,
        DeviceUIStatus::Lost,
    ] {
        let mut device = device(1);
        device.status = status;
        device.offline_at = Some(5);
        assert_eq!(device.record_success(12_000), None);
        assert_eq!(device.status, status);
        assert_eq!(device.last_seen, 12_000);
        assert_eq!(device.first_seen, 1_000);
        assert_eq!(device.last_status_change, 7);
        assert_eq!(device.offline_at, Some(5));
        assert_eq!(device.consecutive_failures, 0);
        assert!(device.offline_events.is_empty());
    }
}

#[test]
fn each_outage_gets_its_own_event() {
    let mut device = device(1);
    for round in 0..3i64 {
        let base = round * 100_000;
        device.record_failure(base + 1, 0);
        device.record_failure(base + 2, 0);
        assert_eq!(open_events(&device), 1);
        assert_eq!(device.record_success(base + 52), Some((base + 2, Some(base + 52), 50)));
        assert_eq!(open_events(&device), 0);
    }
    assert_eq!(device.offline_events.len(), 3);
}

#[test]
fn failure_count_stops_at_its_limit() {
    let mut device = device(1);
    device.record_failure(1, 0);
    device.record_failure(2, 0);
    device.consecutive_failures = u32::MAX - 1;
    device.record_failure(3, 0);
    assert_eq!(device.consecutive_failures, u32::MAX);
    device.record_failure(4, 0);
    assert_eq!(device.consecutive_failures, u32::MAX);
    assert_eq!(device.status, DeviceUIStatus::Offline);
    assert_eq!(device.offline_events.len(), 1);
}

#[test]
fn elapsed_time_wraps_when_the_clock_runs_back() {
    assert_eq!(elapsed_between(1_000, 4_500), 3_500);
    assert_eq!(elapsed_between(5, 5), 0);
    assert_eq!(elapsed_between(10, 9), u64::MAX);
    assert_eq!(elapsed_between(i64::MIN, i64::MAX), u64::MAX);
    assert_eq!(elapsed_between(i64::MAX, i64::MIN), 1);
}

#[test]
fn ranks_group_the_statuses() {
    assert_eq!(status_rank(&DeviceUIStatus::Online), 0);
    assert_eq!(status_rank(&DeviceUIStatus::New), 0);
    assert_eq!(status_rank(&DeviceUIStatus::Unstable), 1);
    assert_eq!(status_rank(&DeviceUIStatus::Offline), 2);
    assert_eq!(status_rank(&DeviceUIStatus::Lost), 2);
}

#[test]
fn alive_time_is_split_into_a_clock() {
    let known = |first: i64, last: i64| DeviceUIInfo::from(&info(1, first, last), 0).alive_clock();
    assert_eq!(known(0, 0), (0, 0, 0));
    assert_eq!(known(0, 999), (0, 0, 0));
    assert_eq!(known(0, 1_000), (0, 0, 1));
    assert_eq!(known(0, 3_661_000), (1, 1, 1));
    assert_eq!(known(1_000, 360_000_000 + 59_000 + 1_000), (100, 0, 59));
    assert_eq!(known(3_661_000, 0), (-1, -1, -1));
    assert_eq!(DeviceUIInfo::from(&info(1, 5, 1_505), 0).alive_span(), 1_500);
}

#[test]
fn offline_events_are_summed_up() {
    assert_eq!(offline_summary(&Vec::new()), (0, 0));
    let event = |duration_ms| OfflineEvent { offline_at: 0, online_at: Some(0), duration_ms };
    assert_eq!(offline_summary(&vec![event(1_000), event(2_000), event(4_000)]), (3, 2_333));
    assert_eq!(offline_summary(&vec![event(u64::MAX), event(u64::MAX)]), (2, u64::MAX));
}

fn with(last: u8, status: DeviceUIStatus, first_seen: i64, last_seen: i64) -> DeviceUIInfo {
    let mut device = DeviceUIInfo::from(&info(last, first_seen, last_seen), 0);
    device.status = status;
    device
}

#[test]
fn list_is_grouped_by_rank_then_by_address() {
    let mut list = vec![
        with(9, DeviceUIStatus::Offline, 0, 0),
        with(3, DeviceUIStatus::Unstable, 0, 0),
        with(7, DeviceUIStatus::Online, 0, 0),
        with(2, DeviceUIStatus::Lost, 0, 0),
        with(5, DeviceUIStatus::New, 0, 0),
        with(1, DeviceUIStatus::Unstable, 0, 0),
    ];
    sort_devices(&mut list, SortMode::Ip);
    let order: Vec<IpAddress> = list.iter().map(|d| d.ip).collect();
    assert_eq!(order, vec![ip(5), ip(7), ip(1), ip(3), ip(2), ip(9)]);
}

#[test]
fn list_by_alive_time_puts_the_oldest_first() {
    let mut list = vec![
        with(1, DeviceUIStatus::Online, 0, 10),
        with(2, DeviceUIStatus::Online, 0, 500),
        with(4, DeviceUIStatus::Online, 100, 150),
        with(3, DeviceUIStatus::Online, 0, 50),
        with(5, DeviceUIStatus::Offline, 0, 9_999),
    ];
    sort_devices(&mut list, SortMode::AliveDuration);
    let order: Vec<IpAddress> = list.iter().map(|d| d.ip).collect();
    assert_eq!(order, vec![ip(2), ip(3), ip(4), ip(1), ip(5)]);
}

#[test]
fn order_of_two_records_is_consistent() {
    let a = with(1, DeviceUIStatus::Online, 0, 10);
    let b = with(2, DeviceUIStatus::Online, 0, 10);
    let c = with(0, DeviceUIStatus::Offline, 0, 10);
    assert_eq!(listing_order(&a, &b, SortMode::Ip), Ordering::Less);
    assert_eq!(listing_order(&b, &a, SortMode::Ip), Ordering::Greater);
    assert_eq!(listing_order(&a, &a, SortMode::Ip), Ordering::Equal);
    assert_eq!(listing_order(&b, &c, SortMode::Ip), Ordering::Less);
    assert!(is_listed_before(&a, &c, SortMode::AliveDuration));
    assert!(!is_listed_before(&c, &a, SortMode::AliveDuration));

    let mut early = with(3, DeviceUIStatus::Offline, 0, 10);
    early.offline_at = Some(100);
    let mut late = with(3, DeviceUIStatus::Lost, 0, 10);
    late.offline_at = Some(200);
    let mut never = with(3, DeviceUIStatus::Offline, 0, 10);
    never.offline_at = None;
    assert_eq!(listing_order(&late, &early, SortMode::Ip), Ordering::Less);
    assert_eq!(listing_order(&early, &late, SortMode::Ip), Ordering::Greater);
    assert_eq!(listing_order(&early, &never, SortMode::Ip), Ordering::Less);
    assert_eq!(listing_order(&never, &never, SortMode::Ip), Ordering::Equal);
}

#[test]
fn dashboard_starts_empty() {
    let ui = CharacterUI::new();
    assert!(ui.devices.is_empty());
    assert_eq!(ui.sort_mode, SortMode::Ip);
    assert_eq!(ui.view_mode, UIViewMode::List);
    assert_eq!((ui.highlight_index, ui.scroll_offset, ui.detail_scroll_offset), (0, 0, 0));
}

#[test]
fn reported_devices_are_taken_over() {
    let mut ui = CharacterUI::new();
    ui.update_device(&info(1, 100, 200), DeviceUIStatus::New, 5);
    assert_eq!(ui.devices.len(), 1);
    assert_eq!(ui.devices[0].status, DeviceUIStatus::New);
    assert_eq!(ui.devices[0].last_status_change, 5);

    let mut again = info(1, 999, 300);
    again.vendor = Some("Acme".to_string());
    again.mac = None;
    ui.update_device(&again, DeviceUIStatus::New, 6);
    assert_eq!(ui.devices.len(), 1);
    assert_eq!(ui.devices[0].first_seen, 100);
    assert_eq!(ui.devices[0].last_seen, 300);
    assert_eq!(ui.devices[0].vendor.as_deref(), Some("Acme"));
    assert_eq!(ui.devices[0].mac, None);
    assert_eq!(ui.devices[0].last_status_change, 5);

    ui.update_device(&again, DeviceUIStatus::Online, 9);
    assert_eq!(ui.devices[0].status, DeviceUIStatus::Online);
    assert_eq!(ui.devices[0].last_status_change, 9);

    ui.update_device(&info(2, 0, 0), DeviceUIStatus::Online, 10);
    assert_eq!(ui.devices.len(), 2);
}

#[test]
fn marking_offline_and_lost() {
    let mut ui = CharacterUI::new();
    ui.update_device(&info(1, 0, 0), DeviceUIStatus::Online, 1);
    ui.mark_device_lost(&ip(1), 2);
    assert_eq!(ui.devices[0].status, DeviceUIStatus::Online);
    ui.mark_device_offline(&ip(1), 5_000, 3);
    assert_eq!(ui.devices[0].status, DeviceUIStatus::Offline);
    assert_eq!(ui.devices[0].offline_at, Some(5_000));
    assert_eq!(ui.devices[0].last_status_change, 3);
    ui.mark_device_offline(&ip(1), 6_000, 4);
    assert_eq!(ui.devices[0].offline_at, Some(5_000));
    assert_eq!(ui.devices[0].last_status_change, 3);
    ui.mark_device_lost(&ip(1), 5);
    assert_eq!(ui.devices[0].status, DeviceUIStatus::Lost);
    assert_eq!(ui.devices[0].last_status_change, 5);
    ui.mark_device_offline(&ip(1), 7_000, 6);
    assert_eq!(ui.devices[0].status, DeviceUIStatus::Lost);
    ui.mark_device_offline(&ip(9), 7_000, 6);
    ui.mark_device_lost(&ip(9), 6);
    assert_eq!(ui.devices.len(), 1);
}

#[test]
fn probe_results_move_the_presence() {
    let mut ui = CharacterUI::new();
    ui.update_device(&info(1, 0, 0), DeviceUIStatus::Online, 1);
    ui.update_device(&info(2, 0, 0), DeviceUIStatus::Online, 1);
    assert_eq!(ui.update_device_status(&ip(1), false, 1_000, 2), None);
    assert_eq!(ui.update_device_status(&ip(1), false, 2_000, 3), None);
    assert_eq!(ui.devices[0].status, DeviceUIStatus::Unstable);
    assert_eq!(ui.devices[1].status, DeviceUIStatus::Online);
    assert_eq!(ui.devices[1].consecutive_failures, 0);
    assert_eq!(ui.update_device_status(&ip(9), false, 2_000, 3), None);
    assert_eq!(ui.update_device_status(&ip(9), true, 2_000, 3), None);
    assert_eq!(ui.update_device_status(&ip(1), true, 2_750, 4), Some((2_000, Some(2_750), 750)));
    assert_eq!(ui.devices[0].status, DeviceUIStatus::Online);
    assert_eq!(ui.update_device_status(&ip(1), true, 3_000, 5), None);
}

#[test]
fn scanner_changes_feed_the_dashboard() {
    let mut ui = CharacterUI::new();
    assert_eq!(ui.apply_change(&DeviceStatus::Added(info(1, 0, 0)), 1_000, 1), None);
    assert_eq!(ui.devices[0].status, DeviceUIStatus::New);
    assert_eq!(ui.apply_change(&DeviceStatus::Stable(info(1, 0, 1_500)), 1_500, 1), None);
    assert_eq!(ui.devices[0].status, DeviceUIStatus::Online);
    assert_eq!(ui.apply_change(&DeviceStatus::Removed(info(1, 0, 0)), 2_000, 2), None);
    assert_eq!(ui.devices[0].consecutive_failures, 1);
    assert_eq!(ui.devices[0].status, DeviceUIStatus::Online);
    assert_eq!(ui.apply_change(&DeviceStatus::Removed(info(1, 0, 0)), 3_000, 3), None);
    assert_eq!(ui.devices[0].status, DeviceUIStatus::Unstable);
    assert_eq!(
        ui.apply_change(&DeviceStatus::Stable(info(1, 0, 4_000)), 4_000, 4),
        Some((3_000, Some(4_000), 1_000))
    );
    assert_eq!(ui.devices[0].status, DeviceUIStatus::Online);
    assert_eq!(ui.devices[0].last_seen, 4_000);
    assert_eq!(ui.apply_change(&DeviceStatus::Removed(info(7, 0, 0)), 5_000, 5), None);
    assert_eq!(ui.devices.len(), 1);

    ui.apply_change(&DeviceStatus::Removed(info(1, 0, 0)), 6_000, 6);
    ui.apply_change(&DeviceStatus::Removed(info(1, 0, 0)), 7_000, 7);
    assert_eq!(
        ui.apply_change(&DeviceStatus::Added(info(1, 0, 8_000)), 8_000, 8),
        Some((7_000, Some(8_000), 1_000))
    );
    assert_eq!(ui.devices[0].status, DeviceUIStatus::Online);
    assert_eq!(ui.devices[0].offline_events.len(), 2);
    assert_eq!(ui.devices[0].offline_events[1].online_at, Some(8_000));
}

#[test]
fn sorted_list_is_a_rearrangement() {
    let mut ui = CharacterUI::new();
    for last in [5u8, 1, 9, 3] {
        ui.update_device(&info(last, 0, i64::from(last)), DeviceUIStatus::Online, 0);
    }
    ui.update_device_status(&ip(1), false, 0, 0);
    ui.update_device_status(&ip(1), false, 0, 0);
    let order: Vec<IpAddress> = ui.get_sorted_devices().iter().map(|d| d.ip).collect();
    assert_eq!(order, vec![ip(3), ip(5), ip(9), ip(1)]);
    ui.sort_mode = SortMode::AliveDuration;
    let order: Vec<IpAddress> = ui.get_sorted_devices().iter().map(|d| d.ip).collect();
    assert_eq!(order, vec![ip(9), ip(5), ip(3), ip(1)]);
    let kept: Vec<IpAddress> = ui.devices.iter().map(|d| d.ip).collect();
    assert_eq!(kept, vec![ip(5), ip(1), ip(9), ip(3)]);
}

#[test]
fn statuses_are_counted() {
    let mut ui = CharacterUI::new();
    ui.update_device(&info(1, 0, 0), DeviceUIStatus::Online, 0);
    ui.update_device(&info(2, 0, 0), DeviceUIStatus::New, 0);
    ui.update_device(&info(3, 0, 0), DeviceUIStatus::Online, 0);
    ui.update_device(&info(4, 0, 0), DeviceUIStatus::Online, 0);
    ui.mark_device_offline(&ip(3), 0, 0);
    ui.mark_device_offline(&ip(4), 0, 0);
    ui.mark_device_lost(&ip(4), 0);
    ui.update_device(&info(5, 0, 0), DeviceUIStatus::Unstable, 0);
    assert_eq!(
        ui.status_counts(),
        StatusCounts { total: 5, online: 1, offline: 1, unstable: 1, new: 1, lost: 1 }
    );
}

fn ui_of(count: u8) -> CharacterUI {
    let mut ui = CharacterUI::new();
    for last in 0..count {
        ui.update_device(&info(last, 0, 0), DeviceUIStatus::Online, 0);
    }
    ui
}

#[test]
fn arrow_keys_move_and_scroll() {
    let mut ui = ui_of(5);
    ui.handle_up_key();
    assert_eq!((ui.highlight_index, ui.scroll_offset), (0, 0));
    ui.handle_down_key(3);
    ui.handle_down_key(3);
    assert_eq!((ui.highlight_index, ui.scroll_offset), (2, 0));
    ui.handle_down_key(3);
    assert_eq!((ui.highlight_index, ui.scroll_offset), (3, 1));
    ui.handle_down_key(3);
    assert_eq!((ui.highlight_index, ui.scroll_offset), (4, 2));
    ui.handle_down_key(3);
    assert_eq!((ui.highlight_index, ui.scroll_offset), (4, 2));
    ui.handle_up_key();
    assert_eq!((ui.highlight_index, ui.scroll_offset), (3, 2));
    ui.handle_up_key();
    ui.handle_up_key();
    assert_eq!((ui.highlight_index, ui.scroll_offset), (1, 1));
    let mut none = CharacterUI::new();
    none.handle_down_key(3);
    assert_eq!((none.highlight_index, none.scroll_offset), (0, 0));
}

#[test]
fn page_keys_jump() {
    let mut ui = ui_of(10);
    ui.handle_page_down(4);
    assert_eq!((ui.highlight_index, ui.scroll_offset), (4, 1));
    ui.handle_page_down(4);
    assert_eq!((ui.highlight_index, ui.scroll_offset), (8, 5));
    ui.handle_page_down(4);
    assert_eq!((ui.highlight_index, ui.scroll_offset), (9, 6));
    ui.handle_page_down(4);
    assert_eq!((ui.highlight_index, ui.scroll_offset), (9, 6));
    ui.handle_page_up(4);
    assert_eq!((ui.highlight_index, ui.scroll_offset), (5, 5));
    ui.handle_page_up(4);
    ui.handle_page_up(4);
    assert_eq!((ui.highlight_index, ui.scroll_offset), (0, 0));
    ui.handle_page_up(4);
    assert_eq!((ui.highlight_index, ui.scroll_offset), (0, 0));

    let mut short = ui_of(3);
    short.handle_page_down(20);
    assert_eq!((short.highlight_index, short.scroll_offset), (2, 0));
    short.handle_page_down(usize::MAX);
    assert_eq!((short.highlight_index, short.scroll_offset), (2, 0));
}

#[test]
fn keys_steer_the_views() {
    let mut ui = ui_of(3);
    assert_eq!(ui.handle_key(UiKey::Other, 10), UiAction::Ignore);
    assert_eq!(ui.handle_key(UiKey::ToggleSort, 10), UiAction::Redraw);
    assert_eq!(ui.sort_mode, SortMode::AliveDuration);
    assert_eq!(ui.handle_key(UiKey::ToggleSort, 10), UiAction::Redraw);
    assert_eq!(ui.sort_mode, SortMode::Ip);
    assert_eq!(ui.handle_key(UiKey::Down, 10), UiAction::Redraw);
    assert_eq!(ui.highlight_index, 1);
    assert_eq!(ui.handle_key(UiKey::Enter, 10), UiAction::Redraw);
    assert_eq!(ui.view_mode, UIViewMode::Detail);
    assert_eq!(ui.handle_key(UiKey::Down, 10), UiAction::Redraw);
    assert_eq!(ui.handle_key(UiKey::Down, 10), UiAction::Redraw);
    assert_eq!((ui.highlight_index, ui.detail_scroll_offset), (1, 2));
    assert_eq!(ui.handle_key(UiKey::Up, 10), UiAction::Redraw);
    assert_eq!(ui.detail_scroll_offset, 1);
    assert_eq!(ui.handle_key(UiKey::ToggleSort, 10), UiAction::Redraw);
    assert_eq!(ui.sort_mode, SortMode::Ip);
    assert_eq!(ui.handle_key(UiKey::PageDown, 10), UiAction::Redraw);
    assert_eq!(ui.handle_key(UiKey::PageUp, 10), UiAction::Redraw);
    assert_eq!(ui.handle_key(UiKey::Enter, 10), UiAction::Redraw);
    assert_eq!((ui.highlight_index, ui.detail_scroll_offset), (1, 1));
    assert_eq!(ui.handle_key(UiKey::Quit, 10), UiAction::Redraw);
    assert_eq!((ui.view_mode, ui.detail_scroll_offset), (UIViewMode::List, 0));
    assert_eq!(ui.handle_key(UiKey::PageDown, 10), UiAction::Redraw);
    assert_eq!(ui.highlight_index, 2);
    assert_eq!(ui.handle_key(UiKey::PageUp, 10), UiAction::Redraw);
    assert_eq!(ui.highlight_index, 0);
    assert_eq!(ui.handle_key(UiKey::Up, 10), UiAction::Redraw);
    assert_eq!(ui.handle_key(UiKey::Quit, 10), UiAction::Quit);
    assert_eq!(ui.view_mode, UIViewMode::List);
}

#[test]
fn visible_range_is_brought_inside_the_list() {
    let range = CharacterUI::calculate_visible_range_and_highlight;
    assert_eq!(range(10, 4, 0, 0), (0, 4, 0, 0));
    assert_eq!(range(10, 4, 5, 3), (3, 7, 5, 3));
    assert_eq!(range(10, 4, 50, 30), (9, 10, 9, 9));
    assert_eq!(range(10, 4, 2, 8), (2, 6, 2, 2));
    assert_eq!(range(3, 20, 1, 0), (0, 3, 1, 0));
    assert_eq!(range(0, 20, 5, 5), (0, 0, 0, 0));
    assert_eq!(range(5, 0, 2, 1), (1, 1, 2, 1));
    assert_eq!(range(5, usize::MAX, 2, 1), (1, 5, 2, 1));
}

#[test]
fn list_rows_leave_room_for_the_frame() {
    assert_eq!(visible_rows(30), 24);
    assert_eq!(visible_rows(6), 0);
    assert_eq!(visible_rows(5), 0);
    assert_eq!(visible_rows(0), 0);
    assert_eq!(visible_rows(u16::MAX), 65_529);
}
