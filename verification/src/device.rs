//! What is known of a device on the network.
//!
//! Timestamps are milliseconds since the Unix epoch. Contracts speak of a
//! device through its view, in which every text is its sequence of
//! characters.

use vstd::prelude::*;
use vstd::string::*;

use crate::address::IpAddress;
use crate::text::reads_as;

verus! {

/// A device that answered a probe, with what was looked up about it.
#[derive(Debug)]
pub struct DeviceInfo {
    /// The address that answered.
    pub ip: IpAddress,
    /// The hardware address, where it was looked up and found.
    pub mac: Option<String>,
    /// The host name, where one was found.
    pub hostname: Option<String>,
    /// The maker that the hardware address points to.
    pub vendor: Option<String>,
    /// When the device first answered.
    pub first_seen: i64,
    /// When the device last answered.
    pub last_seen: i64,
    /// When the device went away, while it is away.
    pub offline_at: Option<i64>,
}

/// The view of a `DeviceInfo`.
pub struct DeviceView {
    pub ip: IpAddress,
    pub mac: Option<Seq<char>>,
    pub hostname: Option<Seq<char>>,
    pub vendor: Option<Seq<char>>,
    pub first_seen: i64,
    pub last_seen: i64,
    pub offline_at: Option<i64>,
}

/// How a device fared in one scan cycle.
#[derive(Debug)]
pub enum DeviceStatus {
    /// The device answered and was not in the live set.
    Added(DeviceInfo),
    /// The device was in the live set and did not answer.
    Removed(DeviceInfo),
    /// The device was in the live set and answered again; left out where
    /// only changes are asked for.
    Stable(DeviceInfo),
}

/// The view of a `DeviceStatus`.
pub enum StatusView {
    Added(DeviceView),
    Removed(DeviceView),
    Stable(DeviceView),
}

/// The characters of an optional text.
pub open spec fn text_view(text: Option<String>) -> Option<Seq<char>> {
    match text {
        Some(t) => Some(t@),
        None => None,
    }
}

impl View for DeviceInfo {
    type V = DeviceView;

    open spec fn view(&self) -> DeviceView {
        DeviceView {
            ip: self.ip,
            mac: text_view(self.mac),
            hostname: text_view(self.hostname),
            vendor: text_view(self.vendor),
            first_seen: self.first_seen,
            last_seen: self.last_seen,
            offline_at: self.offline_at,
        }
    }
}

impl View for DeviceStatus {
    type V = StatusView;

    open spec fn view(&self) -> StatusView {
        match self {
            DeviceStatus::Added(d) => StatusView::Added(d@),
            DeviceStatus::Removed(d) => StatusView::Removed(d@),
            DeviceStatus::Stable(d) => StatusView::Stable(d@),
        }
    }
}

/// The views of a list of devices.
pub open spec fn device_views(devices: Seq<DeviceInfo>) -> Seq<DeviceView> {
    Seq::new(devices.len(), |i: int| devices[i]@)
}

/// The views of a list of statuses.
pub open spec fn status_views(changes: Seq<DeviceStatus>) -> Seq<StatusView> {
    Seq::new(changes.len(), |i: int| changes[i]@)
}

/// A copy of an optional text.
pub fn clone_text(text: &Option<String>) -> (copy: Option<String>)
    ensures
        copy == *text,
{
    match text {
        Some(t) => Some(t.clone()),
        None => None,
    }
}

impl Clone for DeviceInfo {
    fn clone(&self) -> (res: Self)
        ensures
            res == *self,
    {
        DeviceInfo {
            ip: self.ip,
            mac: clone_text(&self.mac),
            hostname: clone_text(&self.hostname),
            vendor: clone_text(&self.vendor),
            first_seen: self.first_seen,
            last_seen: self.last_seen,
            offline_at: self.offline_at,
        }
    }
}

impl Clone for DeviceStatus {
    fn clone(&self) -> (res: Self)
        ensures
            res == *self,
    {
        match self {
            DeviceStatus::Added(d) => DeviceStatus::Added(d.clone()),
            DeviceStatus::Removed(d) => DeviceStatus::Removed(d.clone()),
            DeviceStatus::Stable(d) => DeviceStatus::Stable(d.clone()),
        }
    }
}

/// Where the `n`-th colon of `text` at or after `from` stands, counting
/// from one, or the length of the text where it has fewer.
pub open spec fn nth_colon(text: Seq<char>, from: int, n: nat) -> int
    decreases text.len() - from,
{
    if from < 0 || from >= text.len() {
        text.len() as int
    } else if text[from] == ':' {
        if n <= 1 {
            from
        } else {
            nth_colon(text, from + 1, (n - 1) as nat)
        }
    } else {
        nth_colon(text, from + 1, n)
    }
}

/// The part of a hardware address that names its maker: its first three
/// groups, which is the text in front of the third colon.
pub open spec fn vendor_prefix(mac: Seq<char>) -> Seq<char> {
    mac.subrange(0, nth_colon(mac, 0, 3))
}

/// Whether `prefix` is one of the blocks assigned to Apple.
pub open spec fn is_apple_prefix(prefix: Seq<char>) -> bool {
    ||| prefix == "00:1e:c2"@
    ||| prefix == "00:16:cb"@
    ||| prefix == "00:17:f2"@
    ||| prefix == "00:1f:5b"@
    ||| prefix == "00:21:e9"@
    ||| prefix == "00:22:41"@
    ||| prefix == "00:23:12"@
    ||| prefix == "00:23:32"@
    ||| prefix == "00:25:00"@
    ||| prefix == "00:26:08"@
    ||| prefix == "00:26:b0"@
    ||| prefix == "00:26:bb"@
    ||| prefix == "00:30:65"@
    ||| prefix == "00:3e:e1"@
    ||| prefix == "00:0d:93"@
    ||| prefix == "00:11:24"@
    ||| prefix == "00:14:51"@
    ||| prefix == "00:19:e3"@
    ||| prefix == "00:1b:63"@
    ||| prefix == "00:1c:b3"@
    ||| prefix == "00:1d:4f"@
    ||| prefix == "00:1e:52"@
    ||| prefix == "00:1f:f3"@
}

/// The maker that the prefix of a hardware address is assigned to, where
/// the table knows it.
pub open spec fn vendor_of(prefix: Seq<char>) -> Option<Seq<char>> {
    if prefix == "00:0c:29"@ || prefix == "00:50:56"@ {
        Some("VMware"@)
    } else if prefix == "00:1a:11"@ {
        Some("Google"@)
    } else if is_apple_prefix(prefix) {
        Some("Apple"@)
    } else if prefix == "00:1c:42"@ {
        Some("Parallels"@)
    } else if prefix == "52:54:00"@ {
        Some("QEMU/KVM"@)
    } else if prefix == "00:15:5d"@ {
        Some("Microsoft"@)
    } else {
        None
    }
}

/// Whether `prefix` is one of the blocks assigned to Apple.
fn apple_prefix(p: &str) -> (apple: bool)
    ensures
        apple == is_apple_prefix(p@),
{
    reads_as(p, "00:1e:c2") || reads_as(p, "00:16:cb") || reads_as(p, "00:17:f2") || reads_as(
        p,
        "00:1f:5b",
    ) || reads_as(p, "00:21:e9") || reads_as(p, "00:22:41") || reads_as(p, "00:23:12") || reads_as(
        p,
        "00:23:32",
    ) || reads_as(p, "00:25:00") || reads_as(p, "00:26:08") || reads_as(p, "00:26:b0") || reads_as(
        p,
        "00:26:bb",
    ) || reads_as(p, "00:30:65") || reads_as(p, "00:3e:e1") || reads_as(p, "00:0d:93") || reads_as(
        p,
        "00:11:24",
    ) || reads_as(p, "00:14:51") || reads_as(p, "00:19:e3") || reads_as(p, "00:1b:63") || reads_as(
        p,
        "00:1c:b3",
    ) || reads_as(p, "00:1d:4f") || reads_as(p, "00:1e:52") || reads_as(p, "00:1f:f3")
}

/// Looks up the maker of a hardware address by its first three groups.
pub fn lookup_vendor(mac: &str) -> (vendor: Option<String>)
    ensures
        text_view(vendor) == vendor_of(vendor_prefix(mac@)),
{
    let len = mac.unicode_len();
    let mut end: usize = 0;
    let mut wanted: u8 = 3;
    let mut found = false;
    while end < len && !found
        invariant
            len == mac@.len(),
            end <= len,
            1 <= wanted <= 3,
            found ==> nth_colon(mac@, 0, 3) == end,
            !found ==> nth_colon(mac@, 0, 3) == nth_colon(mac@, end as int, wanted as nat),
        decreases len - end + if found { 0int } else { 1int },
    {
        if mac.get_char(end) == ':' {
            if wanted == 1 {
                found = true;
            } else {
                wanted = wanted - 1;
                end = end + 1;
            }
        } else {
            end = end + 1;
        }
    }
    let prefix = mac.substring_char(0, end);
    let p = prefix;
    if reads_as(p, "00:0c:29") || reads_as(p, "00:50:56") {
        Some(String::from_str("VMware"))
    } else if reads_as(p, "00:1a:11") {
        Some(String::from_str("Google"))
    } else if apple_prefix(p) {
        Some(String::from_str("Apple"))
    } else if reads_as(p, "00:1c:42") {
        Some(String::from_str("Parallels"))
    } else if reads_as(p, "52:54:00") {
        Some(String::from_str("QEMU/KVM"))
    } else if reads_as(p, "00:15:5d") {
        Some(String::from_str("Microsoft"))
    } else {
        None
    }
}

} // verus!
