//! What diagnostics come to: how events are put in order, where the columns of a table
//! stand, and what a report counts.
use vstd::prelude::*;
use crate::address::BdAddr;
use crate::analyze;
use crate::analyze::AnomalyView;
use crate::backend;
use crate::backend::{BluetoothBackend, Capabilities, SpoofStep};
use crate::device::DeviceView;
use crate::event::{EventView, TransitEvent};
use crate::metrics;
use crate::metrics::{Metrics, SplitBy};
use crate::peer;
use crate::recorder::Recorder;
use crate::report;
use crate::report::{DiagnosticReport, ReportRates};
use crate::text;
use crate::time::Duration;
use crate::transport_error::{TransportError, TransportErrorView};
use crate::vocabulary_laws;

verus! {

proof fn kept_is_there(es: Seq<EventView>, keep: spec_fn(EventView) -> bool, e: EventView)
    requires
        keep(e),
    ensures
        es.filter(keep).contains(e) <==> es.contains(e),
    decreases es.len(),
{
    reveal(Seq::filter);
    if es.len() > 0 {
        let front = es.drop_last();
        kept_is_there(front, keep, e);
        let a = es.filter(keep);
        let b = front.filter(keep);
        if es.contains(e) {
            let k = choose|k: int| 0 <= k < es.len() && es[k] == e;
            if k < front.len() {
                assert(front[k] == e);
                let j = choose|j: int| 0 <= j < b.len() && b[j] == e;
                assert(a[j] == e);
            } else {
                assert(a[b.len() as int] == e);
            }
        }
        if a.contains(e) {
            let j = choose|j: int| 0 <= j < a.len() && a[j] == e;
            if j < b.len() {
                assert(b[j] == e);
                let k = choose|k: int| 0 <= k < front.len() && front[k] == e;
                assert(es[k] == e);
            } else {
                assert(es[es.len() - 1] == e);
            }
        }
    }
}

/// Putting events in order loses none and adds none, and puts none before one with a smaller
/// sequence number, whatever their times.
pub proof fn sorting_orders_by_sequence(
    es: Seq<EventView>,
    sorted: Seq<EventView>,
    i: int,
    j: int,
    e: EventView,
)
    requires
        analyze::stably_sorted(es, sorted),
        0 <= i < j < sorted.len(),
    ensures
        sorted[i].seq <= sorted[j].seq,
        sorted.contains(e) <==> es.contains(e),
{
    let keep = |x: EventView| x.seq == e.seq;
    kept_is_there(es, keep, e);
    kept_is_there(sorted, keep, e);
    assert(analyze::of_seq(sorted, e.seq) == analyze::of_seq(es, e.seq));
}

/// Events that are in order already stay as they are: of one event behind others none of
/// which comes after it, the sorted list is theirs with it behind.
pub proof fn event_in_order_comes_last(es: Seq<EventView>, sorted: Seq<EventView>, e: EventView)
    requires
        analyze::stably_sorted(es, sorted),
        forall|i: int| 0 <= i < sorted.len() ==> (#[trigger] sorted[i]).seq <= e.seq,
    ensures
        analyze::stably_sorted(es.push(e), sorted.push(e)),
{
    let a = es.push(e);
    let b = sorted.push(e);
    assert forall|s: u64| #[trigger] analyze::of_seq(b, s) == analyze::of_seq(a, s) by {
        reveal(Seq::filter);
        assert(a.drop_last() =~= es);
        assert(b.drop_last() =~= sorted);
        assert(analyze::of_seq(sorted, s) == analyze::of_seq(es, s));
    }
    assert forall|i: int, j: int| 0 <= i < j < b.len() implies (#[trigger] b[i]).seq <= (
    #[trigger] b[j]).seq by {
        if j < sorted.len() {
            assert(b[i] == sorted[i] && b[j] == sorted[j]);
        } else {
            assert(b[i] == sorted[i]);
        }
    }
}

/// The columns of a table row: the key first, then how many events, how many bytes and how
/// many failures, each at the right of its column, and the rate last.
pub proof fn row_columns_stand(
    key: Seq<char>,
    m: Metrics,
    width: nat,
    rate: Seq<char>,
)
    requires
        key.len() <= width,
        text::decimal(m.events as nat).len() <= 7,
        text::decimal(m.bytes as nat).len() <= 11,
        text::decimal(m.failures as nat).len() <= 5,
    ensures
        ({
            let w = width as int;
            let k = key.len() as int;
            let row = report::table_row((key, m), width, rate);
            let events = text::decimal(m.events as nat);
            let bytes = text::decimal(m.bytes as nat);
            let failures = text::decimal(m.failures as nat);
            &&& row.subrange(2, 2 + k) == key
            &&& row.subrange(w + 11 - events.len(), w + 11) == events
            &&& row.subrange(w + 24 - bytes.len(), w + 24) == bytes
            &&& row.subrange(w + 31 - failures.len(), w + 31) == failures
            &&& row.len() >= width + 31 + rate.len()
        }),
{
    reveal_strlit("  ");
    reveal_strlit(" B/s\n");
    let w = width as int;
    let k = key.len() as int;
    let row = report::table_row((key, m), width, rate);
    let events = text::decimal(m.events as nat);
    let bytes = text::decimal(m.bytes as nat);
    let failures = text::decimal(m.failures as nat);
    let c0 = text::pad_right(key, width);
    let c1 = text::pad_left(events, ' ', 7);
    let c2 = text::pad_left(bytes, ' ', 11);
    let c3 = text::pad_left(failures, ' ', 5);
    let c4 = text::pad_left(rate, ' ', 10);
    assert(c0.len() == width && c1.len() == 7 && c2.len() == 11 && c3.len() == 5);
    assert(c4.len() >= rate.len());
    let front = "  "@ + c0 + "  "@ + c1 + "  "@ + c2 + "  "@ + c3;
    assert(front.len() == width + 31);
    assert(row.take(front.len() as int) =~= front);
    assert(row.subrange(2, 2 + k) =~= key) by {
        assert(front.subrange(2, 2 + k) =~= c0.take(key.len() as int));
        assert(c0.take(key.len() as int) =~= key);
        assert(row.subrange(2, 2 + k) =~= front.subrange(2, 2 + k));
    }
    assert(row.subrange(w + 11 - events.len(), w + 11) =~= events) by {
        assert(c1.skip(7 - events.len()) =~= events);
        assert(front.subrange(w + 4, w + 11) =~= c1);
        assert(row.subrange(w + 4, w + 11) =~= c1);
        assert(row.subrange(w + 11 - events.len(), w + 11) =~= c1.skip(7 - events.len()));
    }
    assert(row.subrange(w + 24 - bytes.len(), w + 24) =~= bytes) by {
        assert(c2.skip(11 - bytes.len()) =~= bytes);
        assert(front.subrange(w + 13, w + 24) =~= c2);
        assert(row.subrange(w + 13, w + 24) =~= c2);
        assert(row.subrange(w + 24 - bytes.len(), w + 24) =~= c2.skip(11 - bytes.len()));
    }
    assert(row.subrange(w + 31 - failures.len(), w + 31) =~= failures) by {
        assert(c3.skip(5 - failures.len()) =~= failures);
        assert(front.subrange(w + 26, w + 31) =~= c3);
        assert(row.subrange(w + 26, w + 31) =~= c3);
        assert(row.subrange(w + 31 - failures.len(), w + 31) =~= c3.skip(
            5 - failures.len(),
        ));
    }
}

/// A table has one row for each bucket, in their order, and every key fits its column.
pub proof fn one_more_bucket_one_more_row(
    b: Seq<(Seq<char>, Metrics)>,
    x: (Seq<char>, Metrics),
    width: nat,
    rates: Seq<Seq<char>>,
)
    requires
        rates.len() > b.len(),
    ensures
        report::table_rows(b.push(x), width, rates) == report::table_rows(b, width, rates)
            + report::table_row(x, width, rates[b.len() as int]),
        report::key_width(b.push(x)) >= report::key_width(b),
        report::key_width(b.push(x)) >= text::byte_len(x.0),
        report::key_width(b) >= 3,
    decreases b.len(),
{
    assert(b.push(x).drop_last() =~= b);
    if b.len() > 0 {
        one_more_bucket_one_more_row(b.drop_last(), b.last(), width, rates);
        assert(b.drop_last().push(b.last()) =~= b);
    }
}

/// Anomalies are listed one line each, in order, with the number and the code in brackets in
/// front of the words.
pub proof fn one_more_anomaly_one_more_line(v: Seq<AnomalyView>, a: AnomalyView)
    ensures
        ({
            let line = report::anomaly_lines(v.push(a)).skip(report::anomaly_lines(v).len() as int);
            &&& report::anomaly_lines(v).is_prefix_of(report::anomaly_lines(v.push(a)))
            &&& line == "  [#"@ + text::decimal(a.seq as nat) + " "@ + a.code + "] "@ + a.detail
                + "\n"@
        }),
        report::anomaly_lines(Seq::empty()).len() == 0,
{
    let all = report::anomaly_lines(v.push(a));
    let past = report::anomaly_lines(v);
    let line = "  [#"@ + text::decimal(a.seq as nat) + " "@ + a.code + "] "@ + a.detail + "\n"@;
    assert(v.push(a).drop_last() =~= v);
    assert(all == past + line);
    assert(past =~= all.take(past.len() as int));
    assert(all.skip(past.len() as int) =~= line);
}

/// The time that a report covers is from the first event to the last; none without events.
pub proof fn report_covers_first_to_last(es: Seq<EventView>, m: Metrics, d: Duration)
    requires
        m.summarizes(es),
        d == report::covered(m),
    ensures
        es.len() == 0 ==> d.nanos == 0,
        es.len() > 0 ==> d.nanos == m.last_at->0.nanos - m.first_at->0.nanos,
{
    if es.len() > 0 {
        let i = choose|i: int| 0 <= i < es.len() && (#[trigger] es[i]).at == m.first_at->0;
        assert(es[i].at.nanos <= m.last_at->0.nanos);
    }
}

/// An inventory counts the devices and lists each behind an empty line, in order, on the
/// platform that it is taken for.
pub proof fn one_more_device_one_more_listing(v: Seq<DeviceView>, d: DeviceView)
    ensures
        backend::listings(v.push(d)) == backend::listings(v) + ("\n"@ + d.listing(
            peer::inferred(d),
        )),
        backend::inventory(v) == "=== "@ + text::decimal(v.len()) + " device(s) in range ===\n"@
            + backend::listings(v),
        backend::listings(Seq::empty()).len() == 0,
{
    assert(v.push(d).drop_last() =~= v);
}

/// A local address is changed only where one is asked for and the backend can: without a
/// request nothing is called, and a backend that cannot refuses by its own name.
pub proof fn address_changes_only_on_request(
    spoof: Option<BdAddr>,
    caps: Capabilities,
    step: SpoofStep,
)
    requires
        call_ensures(backend::spoof_step, (spoof, &caps), step),
    ensures
        spoof is None <==> step is Keep,
        step is Change <==> spoof is Some && caps.can_spoof_address,
        step matches SpoofStep::Change(a) ==> spoof == Some(a),
        step matches SpoofStep::Refuse(e) ==> (e@ matches TransportErrorView::Unsupported {
            backend: b,
            ..
        } && b == caps.kind.word()),
{
}

/// Whatever a change of address does, without a request the backend stays as it is, and where
/// it cannot make one too.
pub proof fn no_request_no_change<B: BluetoothBackend>(
    changes: spec_fn(B, BdAddr, Result<(), TransportError>, B) -> bool,
    before: B,
    after: B,
    spoof: Option<BdAddr>,
    result: Result<(), TransportError>,
)
    requires
        backend::spoofed(changes, before, after, spoof, result),
    ensures
        spoof is None ==> after == before && result is Ok,
        spoof is Some && !before.abilities().can_spoof_address ==> after == before && result
            is Err && result->Err_0@ is Unsupported,
        spoof is Some && before.abilities().can_spoof_address ==> changes(
            before,
            spoof->0,
            result,
            after,
        ),
{
}

/// The line of totals names each count by its own word.
pub proof fn totals_are_named(m: Metrics, span: Seq<char>, rate: Seq<char>)
    ensures
        ({
            let s = report::total_line(m, span, rate);
            &&& text::has_text(s, text::decimal(m.events as nat) + " events, "@)
            &&& text::has_text(s, text::decimal(m.bytes as nat) + " bytes, "@)
            &&& text::has_text(s, text::decimal(m.failures as nat) + " failures, "@)
            &&& text::has_text(s, text::decimal(m.warnings as nat) + " warnings, span "@ + span)
        }),
{
    let s = report::total_line(m, span, rate);
    let e = text::decimal(m.events as nat) + " events, "@;
    let b = text::decimal(m.bytes as nat) + " bytes, "@;
    let f = text::decimal(m.failures as nat) + " failures, "@;
    let w = text::decimal(m.warnings as nat) + " warnings, span "@ + span;
    let end = ", "@ + rate + " B/s\n"@;
    let start = "total: "@;
    assert(s =~= start + e + b + f + w + end);
    vocabulary_laws::text_in_the_middle(start, e, b + f + w + end);
    assert(s =~= start + e + (b + f + w + end));
    vocabulary_laws::text_in_the_middle(start + e, b, f + w + end);
    assert(s =~= start + e + b + (f + w + end));
    vocabulary_laws::text_in_the_middle(start + e + b, f, w + end);
    assert(s =~= start + e + b + f + (w + end));
    vocabulary_laws::text_in_the_middle(start + e + b + f, w, end);
}

/// The line of an event begins with its number and shows, in this order, the controller, the
/// peer, the context and what happened.
pub proof fn event_line_shows_its_parts(e: EventView, kind: Seq<char>)
    ensures
        ({
            let s = e.line(kind);
            &&& s.len() > 0 && s[0] == '#'
            &&& text::decimal(e.seq as nat).is_prefix_of(s.skip(1))
            &&& vocabulary_laws::ends_with(
                s,
                " ["@ + e.origin.local.words() + "] "@ + e.origin.peer.words() + " <"@
                    + e.origin.spec.words() + "> "@ + kind,
            )
        }),
{
    reveal_strlit("#");
    let s = e.line(kind);
    let n = text::decimal(e.seq as nat);
    let tail = " ["@ + e.origin.local.words() + "] "@ + e.origin.peer.words() + " <"@
        + e.origin.spec.words() + "> "@ + kind;
    let head = "#"@ + text::pad_right(n, 4) + " "@ + e.at.words();
    assert(s =~= head + tail);
    assert(s.skip(head.len() as int) =~= tail);
    assert(s.skip(1).take(n.len() as int) =~= n);
}

/// A report on events has failures exactly where one of them is an error or a failed pairing.
pub proof fn failures_come_from_events(es: Seq<EventView>, m: Metrics, r: bool)
    requires
        m.summarizes(es),
        call_ensures(Metrics::has_failures, (&m,), r),
    ensures
        r <==> exists|i: int|
            0 <= i < es.len() && ((#[trigger] es[i]).kind is Error || es[i].kind is PairingFailed),
{
    counted_failures(es);
}

proof fn counted_failures(es: Seq<EventView>)
    ensures
        metrics::failure_count(es) > 0 <==> exists|i: int|
            0 <= i < es.len() && ((#[trigger] es[i]).kind is Error || es[i].kind is PairingFailed),
    decreases es.len(),
{
    if es.len() > 0 {
        let front = es.drop_last();
        counted_failures(front);
        if es.last().kind is Error || es.last().kind is PairingFailed {
            assert(es[es.len() - 1].kind is Error || es[es.len() - 1].kind is PairingFailed);
        }
        if metrics::failure_count(front) > 0 {
            let i = choose|i: int|
                0 <= i < front.len() && ((#[trigger] front[i]).kind is Error || front[i].kind
                    is PairingFailed);
            assert(es[i] == front[i]);
        }
        if exists|i: int|
            0 <= i < es.len() && ((#[trigger] es[i]).kind is Error || es[i].kind is PairingFailed) {
            let i = choose|i: int|
                0 <= i < es.len() && ((#[trigger] es[i]).kind is Error || es[i].kind
                    is PairingFailed);
            if i < front.len() {
                assert(front[i] == es[i]);
            }
        }
    }
}

proof fn shown_further(p: Seq<char>, x: Seq<char>, rest: Seq<char>)
    requires
        text::has_text(p, x),
    ensures
        text::has_text(p + rest, x),
{
    let i = choose|i: int| text::stands_at(p, x, i);
    let s = p + rest;
    assert(s.subrange(i, i + x.len()) =~= p.subrange(i, i + x.len()));
    assert(text::stands_at(s, x, i));
}

proof fn shown_here(p: Seq<char>, x: Seq<char>)
    ensures
        text::has_text(p + x, x),
{
    let none = Seq::<char>::empty();
    vocabulary_laws::text_in_the_middle(p, x, none);
    assert(p + x + none =~= p + x);
}

/// Parts on top of a head, each with a line behind it.
pub open spec fn stacked(head: Seq<char>, parts: Seq<Seq<char>>, line: Seq<char>) -> Seq<char>
    decreases parts.len(),
{
    if parts.len() == 0 {
        head
    } else {
        stacked(head, parts.drop_last(), line) + parts.last() + line
    }
}

proof fn one_more_part(head: Seq<char>, parts: Seq<Seq<char>>, x: Seq<char>, line: Seq<char>)
    ensures
        stacked(head, parts.push(x), line) == stacked(head, parts, line) + x + line,
{
    assert(parts.push(x).drop_last() =~= parts);
}

proof fn stacked_parts_show(
    head: Seq<char>,
    x: Seq<char>,
    parts: Seq<Seq<char>>,
    line: Seq<char>,
    k: int,
)
    requires
        text::has_text(head, x),
        0 <= k < parts.len(),
    ensures
        text::has_text(stacked(head, parts, line), x),
        text::has_text(stacked(head, parts, line), parts[k]),
    decreases parts.len(),
{
    let front = parts.drop_last();
    let s = stacked(head, front, line);
    if front.len() > 0 {
        stacked_parts_show(head, x, front, line, if k < front.len() {
            k
        } else {
            0
        });
    }
    carried_on(s, x, parts.last(), line);
    if k < front.len() {
        assert(front[k] == parts[k]);
        carried_on(s, parts[k], parts.last(), line);
    } else {
        shown_here(s, parts.last());
        shown_further(s + parts.last(), parts.last(), line);
    }
}

/// The table of an axis in a report.
pub open spec fn axis_table(r: DiagnosticReport, rates: ReportRates, axis: SplitBy) -> Seq<char> {
    let own = match axis {
        SplitBy::Controller => rates.by_controller@,
        SplitBy::Spec => rates.by_spec@,
        SplitBy::Transport => rates.by_transport@,
        SplitBy::RadioStandard => rates.by_radio_standard@,
        SplitBy::PortAuth => rates.by_port_auth@,
        SplitBy::EventKind => rates.by_event_kind@,
        SplitBy::Peer => rates.by_peer@,
    };
    let split = report::part(r, axis);
    report::table(split.dimension, split@, text::texts(own))
}

spec fn same_text(a: Seq<char>, b: Seq<char>) -> bool {
    a == b
}

#[verifier::rlimit(100)]
#[verifier::spinoff_prover]
proof fn report_is_stacked(r: DiagnosticReport, rates: ReportRates)
    ensures
        same_text(
            r.rendering(rates),
            stacked(
                "═══ pax diagnostic report ═══\n"@ + report::total_line(
                    r.total,
                    report::covered(r.total).readable(rates.span_seconds@),
                    rates.total@,
                ) + "\n"@,
                seq![
                    axis_table(r, rates, SplitBy::Controller),
                    axis_table(r, rates, SplitBy::Spec),
                    axis_table(r, rates, SplitBy::RadioStandard),
                    axis_table(r, rates, SplitBy::PortAuth),
                    axis_table(r, rates, SplitBy::Transport),
                    axis_table(r, rates, SplitBy::EventKind),
                    axis_table(r, rates, SplitBy::Peer),
                ],
                "\n"@,
            ) + "── Anomalies ──\n"@ + if r.anomalies@.len() == 0 {
                "  none\n"@
            } else {
                report::anomaly_lines(analyze::anomalies_view(r.anomalies@))
            },
        ),
{
    seven_stack(
        "═══ pax diagnostic report ═══\n"@ + report::total_line(
            r.total,
            report::covered(r.total).readable(rates.span_seconds@),
            rates.total@,
        ) + "\n"@,
        axis_table(r, rates, SplitBy::Controller),
        axis_table(r, rates, SplitBy::Spec),
        axis_table(r, rates, SplitBy::RadioStandard),
        axis_table(r, rates, SplitBy::PortAuth),
        axis_table(r, rates, SplitBy::Transport),
        axis_table(r, rates, SplitBy::EventKind),
        axis_table(r, rates, SplitBy::Peer),
        "\n"@,
    );
}

proof fn seven_stack(
    head: Seq<char>,
    a: Seq<char>,
    b: Seq<char>,
    c: Seq<char>,
    d: Seq<char>,
    e: Seq<char>,
    f: Seq<char>,
    g: Seq<char>,
    line: Seq<char>,
)
    ensures
        same_text(
            stacked(head, seq![a, b, c, d, e, f, g], line),
            head + a + line + b + line + c + line + d + line + e + line + f + line + g + line,
        ),
{
    let p0 = Seq::<Seq<char>>::empty();
    let p1 = p0.push(a);
    let p2 = p1.push(b);
    let p3 = p2.push(c);
    let p4 = p3.push(d);
    let p5 = p4.push(e);
    let p6 = p5.push(f);
    let p7 = p6.push(g);
    one_more_part(head, p0, a, line);
    one_more_part(head, p1, b, line);
    one_more_part(head, p2, c, line);
    one_more_part(head, p3, d, line);
    one_more_part(head, p4, e, line);
    one_more_part(head, p5, f, line);
    one_more_part(head, p6, g, line);
    assert(p7 =~= seq![a, b, c, d, e, f, g]);
}

/// A report shows its totals, the table of every axis and its anomalies; none of them is left
/// out.
#[verifier::rlimit(80)]
pub proof fn report_shows_everything(r: DiagnosticReport, rates: ReportRates, axis: SplitBy)
    ensures
        text::has_text(r.rendering(rates), axis_table(r, rates, axis)),
        text::has_text(
            r.rendering(rates),
            report::total_line(
                r.total,
                report::covered(r.total).readable(rates.span_seconds@),
                rates.total@,
            ),
        ),
        r.anomalies@.len() > 0 ==> vocabulary_laws::ends_with(
            r.rendering(rates),
            report::anomaly_lines(analyze::anomalies_view(r.anomalies@)),
        ),
{
    let title = "═══ pax diagnostic report ═══\n"@;
    let total = report::total_line(
        r.total,
        report::covered(r.total).readable(rates.span_seconds@),
        rates.total@,
    );
    let line = "\n"@;
    let head = title + total + line;
    let parts = seq![
        axis_table(r, rates, SplitBy::Controller),
        axis_table(r, rates, SplitBy::Spec),
        axis_table(r, rates, SplitBy::RadioStandard),
        axis_table(r, rates, SplitBy::PortAuth),
        axis_table(r, rates, SplitBy::Transport),
        axis_table(r, rates, SplitBy::EventKind),
        axis_table(r, rates, SplitBy::Peer),
    ];
    let k: int = match axis {
        SplitBy::Controller => 0,
        SplitBy::Spec => 1,
        SplitBy::RadioStandard => 2,
        SplitBy::PortAuth => 3,
        SplitBy::Transport => 4,
        SplitBy::EventKind => 5,
        SplitBy::Peer => 6,
    };
    let label = "── Anomalies ──\n"@;
    let lines = if r.anomalies@.len() == 0 {
        "  none\n"@
    } else {
        report::anomaly_lines(analyze::anomalies_view(r.anomalies@))
    };
    let body = stacked(head, parts, line);
    shown_here(title, total);
    shown_further(title + total, total, line);
    stacked_parts_show(head, total, parts, line, k);
    carried_on(body, total, label, lines);
    carried_on(body, parts[k], label, lines);
    report_is_stacked(r, rates);
    assert((body + label + lines).skip((body + label).len() as int) =~= lines);
}

proof fn carried_on(p: Seq<char>, x: Seq<char>, a: Seq<char>, b: Seq<char>)
    requires
        text::has_text(p, x),
    ensures
        text::has_text(p + a + b, x),
{
    shown_further(p, x, a);
    shown_further(p + a, x, b);
}

/// A recorder keeps every event in order and hands all of them out once.
pub proof fn recorder_keeps_everything(
    first: Recorder,
    second: Recorder,
    third: Recorder,
    event: TransitEvent,
    out: Vec<TransitEvent>,
)
    requires
        exists|r: &mut Recorder|
            *r == first && *final(r) == second && #[trigger] call_ensures(
                Recorder::on_event,
                (r, &event),
                (),
            ),
        exists|r: &mut Recorder|
            *r == second && *final(r) == third && #[trigger] call_ensures(
                Recorder::drain,
                (r,),
                out,
            ),
    ensures
        out@.len() == first@.len() + 1,
        out@[first@.len() as int]@ == event@,
        forall|i: int| 0 <= i < first@.len() ==> (#[trigger] out@[i])@ == first@[i],
        third@.len() == 0,
{
    let all = crate::event::events_view(out@);
    assert(all == first@.push(event@));
    assert(all.len() == out@.len());
    assert(all[first@.len() as int] == out@[first@.len() as int]@);
    assert forall|i: int| 0 <= i < first@.len() implies (#[trigger] out@[i])@ == first@[i] by {
        assert(all[i] == out@[i]@);
    }
}

} // verus!
