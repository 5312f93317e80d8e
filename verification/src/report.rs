//! The diagnostic report: a stream's totals, its splits along every axis, and its
//! anomalies, with a text rendering.
use vstd::prelude::*;
use crate::analyze;
use crate::analyze::{Analyzer, Anomaly, AnomalyView, Breakdown};
use crate::event::EventView;
use crate::metrics;
use crate::metrics::{Metrics, SplitBy};
use crate::text;
use crate::time::Duration;

verus! {

/// A complete report.
#[derive(Clone, Debug, PartialEq, Eq)]
pub struct DiagnosticReport {
    /// The whole stream.
    pub total: Metrics,
    /// By controller hardware.
    pub by_controller: Breakdown,
    /// By Bluetooth specification.
    pub by_spec: Breakdown,
    /// By radio.
    pub by_transport: Breakdown,
    /// By IEEE 802.15.x standard.
    pub by_radio_standard: Breakdown,
    /// By 802.1X port state.
    pub by_port_auth: Breakdown,
    /// By kind of event.
    pub by_event_kind: Breakdown,
    /// By peer.
    pub by_peer: Breakdown,
    /// Failures and warnings.
    pub anomalies: Vec<Anomaly>,
}

/// The measured rates that a rendering shows, as text: bytes per second without
/// decimals, one for the whole stream and one for each bucket of each axis, and the
/// whole span in seconds to three decimals.
#[derive(Clone, Debug)]
pub struct ReportRates {
    /// The rate of the whole stream.
    pub total: String,
    /// The span of the whole stream.
    pub span_seconds: String,
    /// The rates by controller hardware.
    pub by_controller: Vec<String>,
    /// The rates by Bluetooth specification.
    pub by_spec: Vec<String>,
    /// The rates by radio.
    pub by_transport: Vec<String>,
    /// The rates by IEEE 802.15.x standard.
    pub by_radio_standard: Vec<String>,
    /// The rates by 802.1X port state.
    pub by_port_auth: Vec<String>,
    /// The rates by kind of event.
    pub by_event_kind: Vec<String>,
    /// The rates by peer.
    pub by_peer: Vec<String>,
}

/// The width of the key column: the widest key in bytes, at least three.
pub open spec fn key_width(b: Seq<(Seq<char>, Metrics)>) -> usize
    decreases b.len(),
{
    if b.len() == 0 {
        3
    } else {
        let front = key_width(b.drop_last());
        let last = text::byte_len(b.last().0);
        if last > front {
            last
        } else {
            front
        }
    }
}

/// One row of a split's table.
pub open spec fn table_row(b: (Seq<char>, Metrics), width: nat, rate: Seq<char>) -> Seq<char> {
    "  "@ + text::pad_right(b.0, width) + "  "@ + text::pad_left(
        text::decimal(b.1.events as nat),
        ' ',
        7,
    ) + "  "@ + text::pad_left(text::decimal(b.1.bytes as nat), ' ', 11) + "  "@ + text::pad_left(
        text::decimal(b.1.failures as nat),
        ' ',
        5,
    ) + "  "@ + text::pad_left(rate, ' ', 10) + " B/s\n"@
}

/// The rows of a split's table.
pub open spec fn table_rows(
    b: Seq<(Seq<char>, Metrics)>,
    width: nat,
    rates: Seq<Seq<char>>,
) -> Seq<char>
    decreases b.len(),
{
    if b.len() == 0 {
        Seq::empty()
    } else {
        table_rows(b.drop_last(), width, rates) + table_row(b.last(), width, rates[b.len() - 1])
    }
}

/// A split's table: heading, column names and one row per bucket.
pub open spec fn table(
    dimension: SplitBy,
    b: Seq<(Seq<char>, Metrics)>,
    rates: Seq<Seq<char>>,
) -> Seq<char> {
    let head = "── "@ + dimension.heading() + " ──\n"@;
    if b.len() == 0 {
        head + "  (no events)\n"@
    } else {
        let width = key_width(b) as nat;
        let names = "  "@ + text::pad_right("key"@, width) + "  "@ + text::pad_left(
            "events"@,
            ' ',
            7,
        ) + "  "@ + text::pad_left("bytes"@, ' ', 11) + "  "@ + text::pad_left("fail"@, ' ', 5)
            + "  "@ + text::pad_left("throughput"@, ' ', 13) + "\n"@;
        head + names + table_rows(b, width, rates)
    }
}

/// The lines of the anomalies.
pub open spec fn anomaly_lines(v: Seq<AnomalyView>) -> Seq<char>
    decreases v.len(),
{
    if v.len() == 0 {
        Seq::empty()
    } else {
        let a = v.last();
        anomaly_lines(v.drop_last()) + ("  [#"@ + text::decimal(a.seq as nat) + " "@ + a.code
            + "] "@ + a.detail + "\n"@)
    }
}

/// The line of totals.
pub open spec fn total_line(m: Metrics, span: Seq<char>, rate: Seq<char>) -> Seq<char> {
    "total: "@ + text::decimal(m.events as nat) + " events, "@ + text::decimal(m.bytes as nat)
        + " bytes, "@ + text::decimal(m.failures as nat) + " failures, "@ + text::decimal(
        m.warnings as nat,
    ) + " warnings, span "@ + span + ", "@ + rate + " B/s\n"@
}

/// The time that a summary covers.
pub open spec fn covered(m: Metrics) -> Duration {
    match (m.first_at, m.last_at) {
        (Some(a), Some(b)) => if b.nanos >= a.nanos {
            Duration { nanos: (b.nanos - a.nanos) as u128 }
        } else {
            Duration { nanos: 0 }
        },
        _ => Duration { nanos: 0 },
    }
}

/// Widths and padding of one table row.
fn table_row_text(key: &str, m: &Metrics, width: usize, rate: &str) -> (r: String)
    ensures
        r@ == table_row((key@, *m), width as nat, rate@),
{
    let mut t = "  ".to_owned();
    t.append(text::padded_right(key, width).as_str());
    t.append("  ");
    let events = text::decimal_text(m.events as u128);
    t.append(text::padded_left(events.as_str(), ' ', 7).as_str());
    t.append("  ");
    let bytes = text::decimal_text(m.bytes as u128);
    t.append(text::padded_left(bytes.as_str(), ' ', 11).as_str());
    t.append("  ");
    let failures = text::decimal_text(m.failures as u128);
    t.append(text::padded_left(failures.as_str(), ' ', 5).as_str());
    t.append("  ");
    t.append(text::padded_left(rate, ' ', 10).as_str());
    t.append(" B/s\n");
    t
}

/// Renders a split as a table; `rates` holds one rate per bucket.
pub fn render_breakdown(breakdown: &Breakdown, rates: &Vec<String>) -> (r: String)
    requires
        rates@.len() == breakdown@.len(),
    ensures
        r@ == table(breakdown.dimension, breakdown@, text::texts(rates@)),
{
    let mut t = "── ".to_owned();
    t.append(breakdown.dimension.title());
    t.append(" ──\n");
    if breakdown.is_empty() {
        t.append("  (no events)\n");
        return t;
    }
    let ghost b = breakdown@;
    let ghost named = text::texts(rates@);
    let mut width: usize = 3;
    let mut i: usize = 0;
    assert(b.take(0) =~= Seq::empty());
    while i < breakdown.buckets.len()
        invariant
            i <= breakdown.buckets@.len(),
            b == breakdown@,
            width == key_width(b.take(i as int)),
        decreases breakdown.buckets@.len() - i,
    {
        assert(b.take(i + 1).drop_last() =~= b.take(i as int));
        assert(b.take(i + 1).last().0 == breakdown.buckets@[i as int].0@);
        let n: usize = breakdown.buckets[i].0.as_str().len();
        if n > width {
            width = n;
        }
        i = i + 1;
    }
    assert(b.take(i as int) =~= b);
    let mut names = "  ".to_owned();
    names.append(text::padded_right("key", width).as_str());
    names.append("  ");
    names.append(text::padded_left("events", ' ', 7).as_str());
    names.append("  ");
    names.append(text::padded_left("bytes", ' ', 11).as_str());
    names.append("  ");
    names.append(text::padded_left("fail", ' ', 5).as_str());
    names.append("  ");
    names.append(text::padded_left("throughput", ' ', 13).as_str());
    names.append("\n");
    t.append(names.as_str());
    let ghost head = t@;
    let mut rows = String::new();
    let mut k: usize = 0;
    assert(b.take(0) =~= Seq::empty());
    while k < breakdown.buckets.len()
        invariant
            k <= breakdown.buckets@.len(),
            b == breakdown@,
            rates@.len() == b.len(),
            named == text::texts(rates@),
            rows@ == table_rows(b.take(k as int), width as nat, named),
        decreases breakdown.buckets@.len() - k,
    {
        assert(b.take(k + 1).drop_last() =~= b.take(k as int));
        assert(b.take(k + 1).last() == (
            breakdown.buckets@[k as int].0@,
            breakdown.buckets@[k as int].1,
        ));
        let row = &breakdown.buckets[k];
        rows.append(table_row_text(row.0.as_str(), &row.1, width, rates[k].as_str()).as_str());
        k = k + 1;
    }
    assert(b.take(k as int) =~= b);
    t.append(rows.as_str());
    t
}

/// Renders anomalies, one line each.
fn render_anomalies(v: &Vec<Anomaly>) -> (r: String)
    ensures
        r@ == anomaly_lines(analyze::anomalies_view(v@)),
{
    let ghost all = analyze::anomalies_view(v@);
    let mut t = String::new();
    let mut i: usize = 0;
    assert(all.take(0) =~= Seq::empty());
    while i < v.len()
        invariant
            i <= v@.len(),
            all == analyze::anomalies_view(v@),
            t@ == anomaly_lines(all.take(i as int)),
        decreases v@.len() - i,
    {
        assert(all.take(i + 1).drop_last() =~= all.take(i as int));
        assert(all.take(i + 1).last() == v@[i as int]@);
        let mut line = "  [#".to_owned();
        line.append(text::decimal_text(v[i].seq as u128).as_str());
        line.append(" ");
        line.append(v[i].code.as_str());
        line.append("] ");
        line.append(v[i].detail.as_str());
        line.append("\n");
        t.append(line.as_str());
        i = i + 1;
    }
    assert(all.take(i as int) =~= all);
    t
}

impl ReportRates {
    /// Whether there is one rate for every bucket of a report.
    pub open spec fn covers(self, r: DiagnosticReport) -> bool {
        &&& self.by_controller@.len() == r.by_controller@.len()
        &&& self.by_spec@.len() == r.by_spec@.len()
        &&& self.by_transport@.len() == r.by_transport@.len()
        &&& self.by_radio_standard@.len() == r.by_radio_standard@.len()
        &&& self.by_port_auth@.len() == r.by_port_auth@.len()
        &&& self.by_event_kind@.len() == r.by_event_kind@.len()
        &&& self.by_peer@.len() == r.by_peer@.len()
    }
}

impl DiagnosticReport {
    /// The text of a report.
    pub open spec fn rendering(self, rates: ReportRates) -> Seq<char> {
        let head = "═══ pax diagnostic report ═══\n"@ + total_line(
            self.total,
            covered(self.total).readable(rates.span_seconds@),
            rates.total@,
        ) + "\n"@;
        let a = head + table(
            self.by_controller.dimension,
            self.by_controller@,
            text::texts(rates.by_controller@),
        ) + "\n"@;
        let b = a + table(self.by_spec.dimension, self.by_spec@, text::texts(rates.by_spec@)) + "\n"@;
        let c = b + table(
            self.by_radio_standard.dimension,
            self.by_radio_standard@,
            text::texts(rates.by_radio_standard@),
        ) + "\n"@;
        let d = c + table(self.by_port_auth.dimension, self.by_port_auth@, text::texts(rates.by_port_auth@))
            + "\n"@;
        let e = d + table(self.by_transport.dimension, self.by_transport@, text::texts(rates.by_transport@))
            + "\n"@;
        let f = e + table(
            self.by_event_kind.dimension,
            self.by_event_kind@,
            text::texts(rates.by_event_kind@),
        ) + "\n"@;
        let g = f + table(self.by_peer.dimension, self.by_peer@, text::texts(rates.by_peer@)) + "\n"@;
        g + "── Anomalies ──\n"@ + if self.anomalies@.len() == 0 {
            "  none\n"@
        } else {
            anomaly_lines(analyze::anomalies_view(self.anomalies@))
        }
    }

    /// Whether every split is labelled with its own axis.
    pub open spec fn labelled(self) -> bool {
        &&& self.by_controller.dimension == SplitBy::Controller
        &&& self.by_spec.dimension == SplitBy::Spec
        &&& self.by_transport.dimension == SplitBy::Transport
        &&& self.by_radio_standard.dimension == SplitBy::RadioStandard
        &&& self.by_port_auth.dimension == SplitBy::PortAuth
        &&& self.by_event_kind.dimension == SplitBy::EventKind
        &&& self.by_peer.dimension == SplitBy::Peer
    }

    /// The text of the report: the totals, the tables of every axis and the anomalies.
    pub fn render(&self, rates: &ReportRates) -> (r: String)
        requires
            rates.covers(*self),
        ensures
            r@ == self.rendering(*rates),
    {
        let m = &self.total;
        let mut t = "═══ pax diagnostic report ═══\n".to_owned();
        let mut line = "total: ".to_owned();
        line.append(text::decimal_text(m.events as u128).as_str());
        line.append(" events, ");
        line.append(text::decimal_text(m.bytes as u128).as_str());
        line.append(" bytes, ");
        line.append(text::decimal_text(m.failures as u128).as_str());
        line.append(" failures, ");
        line.append(text::decimal_text(m.warnings as u128).as_str());
        line.append(" warnings, span ");
        line.append(m.span().readable_text(rates.span_seconds.as_str()).as_str());
        line.append(", ");
        line.append(rates.total.as_str());
        line.append(" B/s\n");
        t.append(line.as_str());
        t.append("\n");
        t.append(render_breakdown(&self.by_controller, &rates.by_controller).as_str());
        t.append("\n");
        t.append(render_breakdown(&self.by_spec, &rates.by_spec).as_str());
        t.append("\n");
        t.append(render_breakdown(&self.by_radio_standard, &rates.by_radio_standard).as_str());
        t.append("\n");
        t.append(render_breakdown(&self.by_port_auth, &rates.by_port_auth).as_str());
        t.append("\n");
        t.append(render_breakdown(&self.by_transport, &rates.by_transport).as_str());
        t.append("\n");
        t.append(render_breakdown(&self.by_event_kind, &rates.by_event_kind).as_str());
        t.append("\n");
        t.append(render_breakdown(&self.by_peer, &rates.by_peer).as_str());
        t.append("\n");
        t.append("── Anomalies ──\n");
        if self.anomalies.len() == 0 {
            t.append("  none\n");
        } else {
            t.append(render_anomalies(&self.anomalies).as_str());
        }
        t
    }
}

impl Analyzer {
    /// The full report of the stream.
    pub fn report(&self) -> (r: DiagnosticReport)
        requires
            metrics::payload_sum(self@) <= u64::MAX,
        ensures
            reports(r, self@),
    {
        DiagnosticReport {
            total: self.total(),
            by_controller: self.breakdown(SplitBy::Controller),
            by_spec: self.breakdown(SplitBy::Spec),
            by_transport: self.breakdown(SplitBy::Transport),
            by_radio_standard: self.breakdown(SplitBy::RadioStandard),
            by_port_auth: self.breakdown(SplitBy::PortAuth),
            by_event_kind: self.breakdown(SplitBy::EventKind),
            by_peer: self.breakdown(SplitBy::Peer),
            anomalies: self.anomalies(),
        }
    }
}

/// Whether a report is that of the given events.
pub open spec fn reports(r: DiagnosticReport, es: Seq<EventView>) -> bool {
    &&& r.total.summarizes(es)
    &&& r.labelled()
    &&& analyze::splits(r.by_controller@, es, SplitBy::Controller)
    &&& analyze::splits(r.by_spec@, es, SplitBy::Spec)
    &&& analyze::splits(r.by_transport@, es, SplitBy::Transport)
    &&& analyze::splits(r.by_radio_standard@, es, SplitBy::RadioStandard)
    &&& analyze::splits(r.by_port_auth@, es, SplitBy::PortAuth)
    &&& analyze::splits(r.by_event_kind@, es, SplitBy::EventKind)
    &&& analyze::splits(r.by_peer@, es, SplitBy::Peer)
    &&& analyze::anomalies_view(r.anomalies@) == analyze::concerns(es)
}

/// The split of a report along an axis.
pub open spec fn part(r: DiagnosticReport, dimension: SplitBy) -> Breakdown {
    match dimension {
        SplitBy::Controller => r.by_controller,
        SplitBy::Spec => r.by_spec,
        SplitBy::Transport => r.by_transport,
        SplitBy::RadioStandard => r.by_radio_standard,
        SplitBy::PortAuth => r.by_port_auth,
        SplitBy::EventKind => r.by_event_kind,
        SplitBy::Peer => r.by_peer,
    }
}

/// A report holds what the analyses give one by one: the summary of the stream, its split
/// along each axis and its anomalies. Along each axis the buckets' events add up to the
/// total.
pub proof fn report_holds_each_analysis(
    r: DiagnosticReport,
    es: Seq<EventView>,
    total: Metrics,
    dimension: SplitBy,
    split: Breakdown,
    anomalies: Seq<Anomaly>,
)
    requires
        reports(r, es),
        total.summarizes(es),
        split.dimension == dimension,
        analyze::splits(split@, es, dimension),
        analyze::anomalies_view(anomalies) == analyze::concerns(es),
    ensures
        r.total == total,
        part(r, dimension).dimension == split.dimension,
        part(r, dimension)@ == split@,
        analyze::anomalies_view(r.anomalies@) == analyze::anomalies_view(anomalies),
        analyze::events_over(analyze::keys_of(split@), es, dimension) == r.total.events,
{
    analyze::summary_is_unique(r.total, total, es);
    analyze::split_is_unique(part(r, dimension)@, split@, es, dimension);
    analyze::split_partitions(split@, es, dimension);
}

} // verus!
