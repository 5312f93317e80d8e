//! What scans find: which devices a filter lets through, on which radio, in what order and
//! up to which number.
use vstd::prelude::*;
use crate::backend::{DiscoveryFilter, FilterView};
use crate::device::{DeviceInfo, DeviceView};
use crate::event::{KindView, TransitEventKind};
use crate::live::{DiscoveryRun, RunView};
use crate::mock_device::MockDeviceView;
use crate::mock_model;
use crate::mock_model::MockView;
use crate::text;
use crate::transport_error::TransportErrorView;
use crate::version::Transport;

verus! {

/// A filter lets a device through exactly where it is measured at least as strong as asked,
/// and its name in lower case holds the text asked for in lower case; what is not asked for
/// does not count, and the radio and the limit never do.
pub proof fn filter_asks_for_strength_and_name(f: FilterView, d: DeviceView)
    ensures
        f.admits(d) <==> ({
            &&& f.min_rssi is None || (d.rssi is Some && d.rssi->0 >= f.min_rssi->0)
            &&& f.name_contains is None || (d.name is Some && exists|i: int|
                {
                    &&& 0 <= i <= text::lowercase(d.name->0).len() - text::lowercase(
                        f.name_contains->0,
                    ).len()
                    &&& #[trigger] text::lowercase(d.name->0).subrange(
                        i,
                        i + text::lowercase(f.name_contains->0).len(),
                    ) == text::lowercase(f.name_contains->0)
                })
        }),
        forall|t: Option<Transport>, n: Option<usize>|
            #[trigger] (FilterView { transport: t, limit: n, ..f }).admits(d) == f.admits(d),
{
    if let (Some(part), Some(name)) = (f.name_contains, d.name) {
        let low = text::lowercase(name);
        let needle = text::lowercase(part);
        if text::has_text(low, needle) {
            let i = choose|i: int| text::stands_at(low, needle, i);
            assert(low.subrange(i, i + needle.len()) == needle);
        }
        if exists|i: int|
            {
                &&& 0 <= i <= low.len() - needle.len()
                &&& #[trigger] low.subrange(i, i + needle.len()) == needle
            } {
            let i = choose|i: int|
                {
                    &&& 0 <= i <= low.len() - needle.len()
                    &&& #[trigger] low.subrange(i, i + needle.len()) == needle
                };
            assert(text::stands_at(low, needle, i));
        }
    }
}

/// A weaker demand on strength admits at least as much.
pub proof fn weaker_demand_admits_more(f: FilterView, d: DeviceView, lower: i16)
    requires
        f.admits(d),
        f.min_rssi matches Some(min) ==> lower <= min,
        f.min_rssi is Some,
    ensures
        (FilterView { min_rssi: Some(lower), ..f }).admits(d),
        (FilterView { min_rssi: None, ..f }).admits(d),
{
}

/// Adding one more device to those in range adds it at the end of what a scan without a
/// limit shows, where the filter lets it through, and changes nothing else.
proof fn one_more_device(ds: Seq<MockDeviceView>, d: MockDeviceView, f: FilterView)
    requires
        f.limit is None,
    ensures
        mock_model::shown(ds.push(d), f) == if mock_model::visible(f, d) {
            mock_model::shown(ds, f).push(d)
        } else {
            mock_model::shown(ds, f)
        },
{
    reveal(Seq::filter);
    assert(ds.push(d).drop_last() =~= ds);
}

/// A scan without a limit shows every device that the filter lets through and that can be
/// met on the radio asked for. A dual-mode device is met on every radio, and whoever asks
/// for dual-mode, or for no radio, meets every device; a device of a single radio is missed
/// exactly by who asks for the other one.
pub proof fn scan_shows_by_radio(ds: Seq<MockDeviceView>, f: FilterView, i: int)
    requires
        f.limit is None,
        0 <= i < ds.len(),
    ensures
        ({
            let there = mock_model::shown(ds, f).contains(ds[i]);
            if !f.admits(ds[i].info) {
                !there
            } else {
                match (f.transport, ds[i].spec.transport) {
                    (None, _) => there,
                    (Some(Transport::Dual), _) => there,
                    (Some(_), Transport::Dual) => there,
                    (Some(Transport::BrEdr), Transport::BrEdr) => there,
                    (Some(Transport::Le), Transport::Le) => there,
                    (Some(Transport::BrEdr), Transport::Le) => !there,
                    (Some(Transport::Le), Transport::BrEdr) => !there,
                }
            }
        }),
    decreases ds.len(),
{
    let front = ds.drop_last();
    let d = ds[i];
    assert(ds =~= front.push(ds.last()));
    one_more_device(front, ds.last(), f);
    let part = mock_model::shown(front, f);
    let all = mock_model::shown(ds, f);
    if i < front.len() {
        scan_shows_by_radio(front, f, i);
        assert(front[i] == d);
        if part.contains(d) {
            let k = choose|k: int| 0 <= k < part.len() && part[k] == d;
            assert(all[k] == d);
        }
        if all.contains(d) {
            let k = choose|k: int| 0 <= k < all.len() && all[k] == d;
            if k < part.len() {
                assert(part[k] == d);
            }
        }
    } else {
        if mock_model::visible(f, d) {
            assert(all[part.len() as int] == d);
        } else {
            shown_is_visible(front, f);
            if all.contains(d) {
                let k = choose|k: int| 0 <= k < all.len() && all[k] == d;
                assert(mock_model::visible(f, part[k]));
            }
        }
    }
}

proof fn shown_is_visible(ds: Seq<MockDeviceView>, f: FilterView)
    requires
        f.limit is None,
    ensures
        forall|k: int|
            0 <= k < mock_model::shown(ds, f).len() ==> mock_model::visible(
                f,
                #[trigger] mock_model::shown(ds, f)[k],
            ),
    decreases ds.len(),
{
    if ds.len() > 0 {
        let front = ds.drop_last();
        assert(ds =~= front.push(ds.last()));
        one_more_device(front, ds.last(), f);
        shown_is_visible(front, f);
    } else {
        reveal(Seq::filter);
    }
}

/// A scan of the mock returns the descriptions of what it shows, in order, and tells of each
/// once, behind one event that it began; a dual-mode device that passes the other conditions
/// is among them whatever radio is asked for.
pub proof fn scan_returns_what_it_shows(
    s: MockView,
    f: FilterView,
    t: MockView,
    result: Result<Seq<DeviceView>, TransportErrorView>,
    i: int,
)
    requires
        mock_model::scans(s, f, t, result),
        result is Ok,
        f.limit is None,
        0 <= i < s.devices.len(),
    ensures
        result->Ok_0 == mock_model::shown(s.devices, f).map_values(|d: MockDeviceView| d.info),
        t.trace.len() == s.trace.len() + 1 + result->Ok_0.len(),
        f.admits(s.devices[i].info) && (f.transport is None || f.transport->0 is Dual
            || s.devices[i].spec.transport is Dual || f.transport->0
            == s.devices[i].spec.transport) ==> result->Ok_0.contains(s.devices[i].info),
{
    let shown = mock_model::shown(s.devices, f);
    let d = s.devices[i];
    scan_shows_by_radio(s.devices, f, i);
    mock_model::scan_takes(s, shown);
    mock_model::running_moves_on(s, mock_model::scan_beats(s, shown));
    if shown.contains(d) {
        let k = choose|k: int| 0 <= k < shown.len() && shown[k] == d;
        assert(result->Ok_0[k] == d.info);
    }
}

/// A limit cuts what the same scan shows without one, at its front part.
pub proof fn limit_keeps_the_first(ds: Seq<MockDeviceView>, f: FilterView, n: usize)
    requires
        f.limit is None,
    ensures
        ({
            let all = mock_model::shown(ds, f);
            let some = mock_model::shown(ds, FilterView { limit: Some(n), ..f });
            &&& some.len() == if n < all.len() {
                n as nat
            } else {
                all.len()
            }
            &&& forall|k: int| 0 <= k < some.len() ==> #[trigger] some[k] == all[k]
        }),
{
    let g = FilterView { limit: Some(n), ..f };
    assert forall|d: MockDeviceView| mock_model::visible(g, d) == mock_model::visible(f, d) by {}
    let by_g = |d: MockDeviceView| mock_model::visible(g, d);
    let by_f = |d: MockDeviceView| mock_model::visible(f, d);
    assert(by_g =~= by_f);
}

/// Devices are shown in the order in which they are scripted.
pub proof fn scan_keeps_the_order(ds: Seq<MockDeviceView>, f: FilterView, i: int, j: int)
    requires
        f.limit is None,
        0 <= i < j < ds.len(),
        mock_model::visible(f, ds[i]),
        mock_model::visible(f, ds[j]),
    ensures
        exists|k: int, l: int|
            0 <= k < l < mock_model::shown(ds, f).len() && #[trigger] mock_model::shown(ds, f)[k]
                == ds[i] && #[trigger] mock_model::shown(ds, f)[l] == ds[j],
    decreases ds.len(),
{
    let front = ds.drop_last();
    assert(ds =~= front.push(ds.last()));
    one_more_device(front, ds.last(), f);
    let part = mock_model::shown(front, f);
    let all = mock_model::shown(ds, f);
    if j < front.len() {
        scan_keeps_the_order(front, f, i, j);
        let (k, l) = choose|k: int, l: int|
            0 <= k < l < part.len() && #[trigger] part[k] == front[i] && #[trigger] part[l]
                == front[j];
        assert(all[k] == ds[i] && all[l] == ds[j]);
    } else {
        scan_shows_by_radio(front, f, i);
        assert(front[i] == ds[i]);
        let k = choose|k: int| 0 <= k < part.len() && part[k] == ds[i];
        let l = part.len() as int;
        assert(all[k] == ds[i] && all[l] == ds[j]);
    }
}

/// A scan of a real adapter gathers a device exactly while there is room and the filter lets
/// it through; it is full exactly once as many are gathered as the filter's limit says.
pub proof fn run_gathers_one_by_one(run: RunView, d: DeviceView)
    ensures
        run.full ==> run.seen(d) == run,
        !run.filter.admits(d) ==> run.seen(d) == run,
        !run.full && run.filter.admits(d) ==> run.seen(d).found == run.found.push(d),
        !run.full && run.filter.admits(d) && run.filter.limit is None ==> !run.seen(d).full,
        !run.full && run.filter.admits(d) ==> (run.filter.limit matches Some(n) ==> (run.seen(d).full
            <==> run.seen(d).found.len() >= n)),
        run.seen(d).filter == run.filter,
        RunView::fresh(run.filter).found.len() == 0,
        RunView::fresh(run.filter).full <==> run.filter.limit == Some(0usize),
{
}

/// Each demand of a filter is set on its own and stays: whatever was asked for before or is
/// asked for after, in any order.
pub proof fn demands_are_independent(
    f: DiscoveryFilter,
    t: Transport,
    name: &str,
    dbm: i16,
    n: usize,
    a: DiscoveryFilter,
    b: DiscoveryFilter,
    c: DiscoveryFilter,
    d: DiscoveryFilter,
)
    requires
        call_ensures(DiscoveryFilter::new, (), f),
        call_ensures(DiscoveryFilter::transport, (f, t), a),
        call_ensures(DiscoveryFilter::name_contains, (a, name), b),
        call_ensures(DiscoveryFilter::min_rssi, (b, dbm), c),
        call_ensures(DiscoveryFilter::limit, (c, n), d),
    ensures
        d@.transport == Some(t),
        d@.name_contains == Some(name@),
        d@.min_rssi == Some(dbm),
        d@.limit == Some(n),
        f@.transport is None && f@.name_contains is None && f@.min_rssi is None && f@.limit
            is None,
        a@.limit is None && b@.min_rssi is None && c@.limit is None,
{
}

/// A scan of a real adapter tells of a device exactly when it gathers it, with its signal.
pub proof fn gathered_device_is_told(
    before: DiscoveryRun,
    after: DiscoveryRun,
    info: DeviceInfo,
    r: Option<TransitEventKind>,
)
    requires
        exists|run: &mut DiscoveryRun|
            *run == before && *final(run) == after && #[trigger] call_ensures(
                DiscoveryRun::offer,
                (run, info),
                r,
            ),
    ensures
        r is Some <==> after@.found == before@.found.push(info@),
        r is None <==> after@.found == before@.found,
        r matches Some(kind) ==> kind@ == (KindView::DeviceDiscovered { rssi: info@.rssi }),
        after@.filter == before@.filter,
{
    assert(before@.found.push(info@).len() == before@.found.len() + 1);
}

} // verus!
