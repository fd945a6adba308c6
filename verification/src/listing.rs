//! The order in which the dashboard lists devices.
//!
//! Devices are grouped by the rank of their status. Inside a group they
//! are ordered by address, or by how long they have been known, longest
//! first and then by address. Records that agree in all of that, which
//! takes two records of one address, are ordered by the time they were
//! marked offline, latest first, where both are gone.

use std::cmp::Ordering;
use vstd::prelude::*;

use crate::presence::{status_rank, status_rank_spec, DeviceUIInfo, DeviceUIView};

verus! {

/// What the list is ordered by inside a group.
#[derive(Clone, Copy, Debug, PartialEq, Eq, Structural)]
pub enum SortMode {
    /// By address, ascending.
    Ip,
    /// By the time a device has been known, longest first.
    AliveDuration,
}

/// Whether the optional time `a` is before `b`, no time being before any.
pub open spec fn time_before(a: Option<i64>, b: Option<i64>) -> bool {
    match (a, b) {
        (None, Some(_)) => true,
        (Some(x), Some(y)) => x < y,
        _ => false,
    }
}

/// Whether `a` is listed before `b` on the strength of the last key: both
/// are gone and `a` was marked offline later.
pub open spec fn later_gone(a: DeviceUIView, b: DeviceUIView) -> bool {
    status_rank_spec(a.status) == 2 && status_rank_spec(b.status) == 2 && time_before(
        b.offline_at,
        a.offline_at,
    )
}

/// Whether `a` is listed before `b` inside a group.
pub open spec fn key_before(a: DeviceUIView, b: DeviceUIView, mode: SortMode) -> bool {
    match mode {
        SortMode::Ip => a.ip.precedes_spec(b.ip),
        SortMode::AliveDuration => a.alive_ms() > b.alive_ms() || (a.alive_ms() == b.alive_ms()
            && a.ip.precedes_spec(b.ip)),
    }
}

/// Whether `a` is listed strictly before `b`.
pub open spec fn listed_before(a: DeviceUIView, b: DeviceUIView, mode: SortMode) -> bool {
    let ra = status_rank_spec(a.status);
    let rb = status_rank_spec(b.status);
    ra < rb || (ra == rb && (key_before(a, b, mode) || (!key_before(b, a, mode) && later_gone(
        a,
        b,
    ))))
}

/// Whether `list` is in listing order: no record is listed strictly
/// before one that stands in front of it.
pub open spec fn in_listing_order(list: Seq<DeviceUIView>, mode: SortMode) -> bool {
    forall|i: int, j: int|
        0 <= i < j < list.len() ==> !listed_before(#[trigger] list[j], #[trigger] list[i], mode)
}

/// The views of a list of records.
pub open spec fn ui_views(devices: Seq<DeviceUIInfo>) -> Seq<DeviceUIView> {
    Seq::new(devices.len(), |i: int| devices[i]@)
}

/// The listing order is a strict order: nothing is before itself, of two
/// records at most one is before the other, and before carries over.
pub proof fn lemma_listing_order_strict(
    a: DeviceUIView,
    b: DeviceUIView,
    c: DeviceUIView,
    mode: SortMode,
)
    ensures
        !listed_before(a, a, mode),
        listed_before(a, b, mode) ==> !listed_before(b, a, mode),
        listed_before(a, b, mode) && listed_before(b, c, mode) ==> listed_before(a, c, mode),
{
}

/// Whether neither of `a` and `b` is listed before the other.
pub open spec fn tied(a: DeviceUIView, b: DeviceUIView, mode: SortMode) -> bool {
    !listed_before(a, b, mode) && !listed_before(b, a, mode)
}

/// Being tied carries over, and a record is listed like those it is tied
/// with: the listing order is one that a sort can follow.
pub proof fn lemma_listing_order_ties(
    a: DeviceUIView,
    b: DeviceUIView,
    c: DeviceUIView,
    mode: SortMode,
)
    ensures
        tied(a, a, mode),
        tied(a, b, mode) && tied(b, c, mode) ==> tied(a, c, mode),
        tied(a, b, mode) ==> (listed_before(a, c, mode) <==> listed_before(b, c, mode)),
        tied(a, b, mode) ==> (listed_before(c, a, mode) <==> listed_before(c, b, mode)),
{
}

/// Records of different addresses are never tied: one is listed before
/// the other.
pub proof fn lemma_listing_order_total(a: DeviceUIView, b: DeviceUIView, mode: SortMode)
    requires
        a.ip != b.ip,
    ensures
        listed_before(a, b, mode) || listed_before(b, a, mode),
{
}

/// No two records of `list` are for one address.
pub open spec fn one_address_each(list: Seq<DeviceUIView>) -> bool {
    forall|i: int, j: int|
        0 <= i < j < list.len() ==> (#[trigger] list[i]).ip != (#[trigger] list[j]).ip
}

/// The listing order leaves no choice: two lists of the same records, with
/// one record for each address, that are both in listing order are the
/// same list.
pub proof fn lemma_listing_is_unique(a: Seq<DeviceUIView>, b: Seq<DeviceUIView>, mode: SortMode)
    requires
        a.to_multiset() == b.to_multiset(),
        one_address_each(a),
        in_listing_order(a, mode),
        in_listing_order(b, mode),
    ensures
        a == b,
    decreases a.len(),
{
    a.to_multiset_ensures();
    b.to_multiset_ensures();
    assert(a.len() == b.len());
    if a.len() == 0 {
        assert(a =~= b);
    } else {
        let n = a.len() - 1;
        let x = a[n];
        let y = b[n];
        assert(a.contains(x));
        assert(b.contains(y));
        assert(b.to_multiset().count(x) > 0);
        assert(a.to_multiset().count(y) > 0);
        let k = choose|k: int| 0 <= k < b.len() && b[k] == x;
        let m = choose|m: int| 0 <= m < a.len() && a[m] == y;
        if m != n {
            assert(a[m].ip != a[n].ip);
            lemma_listing_order_total(x, y, mode);
            assert(!listed_before(a[n], a[m], mode));
            if k != n {
                assert(!listed_before(b[n], b[k], mode));
            } else {
                // x stands at the end of `b` as well, so it is `y`
                assert(x == y);
            }
        }
        assert(x == y);
        let a0 = a.remove(n);
        let b0 = b.remove(n);
        assert(a0 =~= a.drop_last());
        assert(b0 =~= b.drop_last());
        assert(a0.to_multiset() =~= b0.to_multiset());
        assert forall|i: int, j: int| 0 <= i < j < a0.len() implies (#[trigger] a0[i]).ip != (
        #[trigger] a0[j]).ip by {
            assert(a[i].ip != a[j].ip);
        }
        assert forall|i: int, j: int| 0 <= i < j < a0.len() implies !listed_before(
            #[trigger] a0[j],
            #[trigger] a0[i],
            mode,
        ) by {
            assert(!listed_before(a[j], a[i], mode));
        }
        assert forall|i: int, j: int| 0 <= i < j < b0.len() implies !listed_before(
            #[trigger] b0[j],
            #[trigger] b0[i],
            mode,
        ) by {
            assert(!listed_before(b[j], b[i], mode));
        }
        lemma_listing_is_unique(a0, b0, mode);
        assert(a =~= a0.push(x));
        assert(b =~= b0.push(y));
    }
}

/// Whether the optional time `a` is before `b`.
fn is_time_before(a: Option<i64>, b: Option<i64>) -> (before: bool)
    ensures
        before == time_before(a, b),
{
    match (a, b) {
        (None, Some(_)) => true,
        (Some(x), Some(y)) => x < y,
        _ => false,
    }
}

/// Whether `a` is listed before `b` inside a group.
fn is_key_before(a: &DeviceUIInfo, b: &DeviceUIInfo, mode: SortMode) -> (before: bool)
    ensures
        before == key_before(a@, b@, mode),
{
    match mode {
        SortMode::Ip => a.ip.precedes(&b.ip),
        SortMode::AliveDuration => {
            let da = a.alive_span();
            let db = b.alive_span();
            da > db || (da == db && a.ip.precedes(&b.ip))
        },
    }
}

/// Whether `a` is listed strictly before `b`.
pub fn is_listed_before(a: &DeviceUIInfo, b: &DeviceUIInfo, mode: SortMode) -> (before: bool)
    ensures
        before == listed_before(a@, b@, mode),
{
    let ra = status_rank(&a.status);
    let rb = status_rank(&b.status);
    if ra != rb {
        ra < rb
    } else if is_key_before(a, b, mode) {
        true
    } else if is_key_before(b, a, mode) {
        false
    } else {
        ra == 2 && is_time_before(b.offline_at, a.offline_at)
    }
}

/// Compares two records by the listing order.
pub fn listing_order(a: &DeviceUIInfo, b: &DeviceUIInfo, mode: SortMode) -> (order: Ordering)
    ensures
        order == Ordering::Less <==> listed_before(a@, b@, mode),
        order == Ordering::Greater <==> listed_before(b@, a@, mode),
{
    proof {
        lemma_listing_order_strict(a@, b@, a@, mode);
    }
    if is_listed_before(a, b, mode) {
        Ordering::Less
    } else if is_listed_before(b, a, mode) {
        Ordering::Greater
    } else {
        Ordering::Equal
    }
}

/// Sorts `list` with `slice::sort_by` and the listing order.
///
/// Trusted: the sort rearranges the records without changing any, and
/// leaves them in the order of the comparison it is given, which is a
/// strict order whose ties carry over.
#[verifier::external_body]
fn sort_by_listing_order(list: &mut Vec<DeviceUIInfo>, mode: SortMode)
    ensures
        ui_views(final(list)@).to_multiset() == ui_views(old(list)@).to_multiset(),
        in_listing_order(ui_views(final(list)@), mode),
{
    list.sort_by(|a, b| listing_order(a, b, mode));
}

/// Puts `list` into listing order.
pub fn sort_devices(list: &mut Vec<DeviceUIInfo>, mode: SortMode)
    ensures
        ui_views(final(list)@).to_multiset() == ui_views(old(list)@).to_multiset(),
        in_listing_order(ui_views(final(list)@), mode),
        final(list)@.len() == old(list)@.len(),
{
    let ghost before = ui_views(list@);
    sort_by_listing_order(list, mode);
    proof {
        let after = ui_views(list@);
        before.to_multiset_ensures();
        after.to_multiset_ensures();
    }
}

} // verus!
