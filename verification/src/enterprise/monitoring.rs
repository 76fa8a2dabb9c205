//! Monitoring: metric series kept for a retention period, and alerts (the
//! alerts in force, keyed by their identifier, and a history of the most
//! recent ones).

use vstd::prelude::*;
use crate::ambient::{utc_now_millis, utc_now_seconds};
use crate::text::{owned, StringMap};

verus! {

/// Metric collection settings.
#[derive(Debug, Clone, Copy, PartialEq, Eq, Structural)]
pub struct MetricsConfig {
    pub collection_interval_seconds: u64,
    pub retention_days: u32,
    pub dimensional_metrics_enabled: bool,
    pub custom_metrics_enabled: bool,
}

/// A metric reading to record.  The value is kept as the bits of an
/// IEEE-754 double; the time is in milliseconds since the Unix epoch.
#[derive(Debug)]
pub struct Metric {
    pub name: String,
    pub value_bits: u64,
    pub dimensions: StringMap<String>,
    pub timestamp: i64,
}

/// A recorded point of a metric series; the time is when it was recorded,
/// in milliseconds since the Unix epoch.
#[derive(Debug)]
pub struct MetricPoint {
    pub timestamp: i64,
    pub value_bits: u64,
    pub dimensions: StringMap<String>,
}

/// A span of time, both ends included, in milliseconds since the Unix
/// epoch.
#[derive(Debug, Clone, Copy, PartialEq, Eq, Structural)]
pub struct TimeRange {
    pub start: i64,
    pub end: i64,
}

/// The most points a series keeps.
pub const SERIES_LIMIT: usize = 10000;

/// Milliseconds in a day.
pub const DAY_MILLIS: i64 = 86400000;

/// A point as plain values: time, value bits and dimensions.
pub open spec fn point_view(p: MetricPoint) -> (i64, u64, Map<Seq<char>, String>) {
    (p.timestamp, p.value_bits, p.dimensions@)
}

/// The plain values of a series.
pub open spec fn series_view(s: Seq<MetricPoint>) -> Seq<(i64, u64, Map<Seq<char>, String>)> {
    s.map_values(|p: MetricPoint| point_view(p))
}

/// A series without its leading points older than `cutoff`.
pub open spec fn drop_older(s: Seq<(i64, u64, Map<Seq<char>, String>)>, cutoff: int) -> Seq<(i64, u64, Map<Seq<char>, String>)>
    decreases s.len(),
{
    if s.len() > 0 && s[0].0 < cutoff {
        drop_older(s.drop_first(), cutoff)
    } else {
        s
    }
}

/// The last `SERIES_LIMIT` points of a series.
pub open spec fn capped(s: Seq<(i64, u64, Map<Seq<char>, String>)>) -> Seq<(i64, u64, Map<Seq<char>, String>)> {
    if s.len() > SERIES_LIMIT {
        s.skip(s.len() - SERIES_LIMIT)
    } else {
        s
    }
}

/// The oldest time a series keeps when a point is recorded at `now` with
/// the retention period.
pub open spec fn retention_cutoff(now: i64, retention_days: u32) -> int {
    now - retention_days * DAY_MILLIS
}

/// A series after recording `p` at `now`: the point is appended, the
/// leading points older than the retention period leave, and at most
/// `SERIES_LIMIT` points stay.
pub open spec fn series_after(
    s: Seq<(i64, u64, Map<Seq<char>, String>)>,
    p: (i64, u64, Map<Seq<char>, String>),
    now: i64,
    retention_days: u32,
) -> Seq<(i64, u64, Map<Seq<char>, String>)> {
    capped(drop_older(s.push(p), retention_cutoff(now, retention_days)))
}

/// The points of a series within a time range, in order.
pub open spec fn points_within(s: Seq<(i64, u64, Map<Seq<char>, String>)>, range: TimeRange) -> Seq<
    (i64, u64, Map<Seq<char>, String>),
>
    decreases s.len(),
{
    if s.len() == 0 {
        Seq::empty()
    } else if range.start <= s.last().0 <= range.end {
        points_within(s.drop_last(), range).push(s.last())
    } else {
        points_within(s.drop_last(), range)
    }
}

fn copy_point(p: &MetricPoint) -> (r: MetricPoint)
    ensures
        point_view(r) == point_view(*p),
{
    MetricPoint { timestamp: p.timestamp, value_bits: p.value_bits, dimensions: p.dimensions.duplicate() }
}

/// Collects metric series by name.
#[derive(Debug)]
pub struct MetricsCollector {
    config: MetricsConfig,
    series: StringMap<Vec<MetricPoint>>,
}

impl MetricsCollector {
    /// The settings.
    pub closed spec fn settings(&self) -> MetricsConfig {
        self.config
    }

    /// The points of the named series (none for an unknown name).
    pub closed spec fn series_of(&self, name: Seq<char>) -> Seq<(i64, u64, Map<Seq<char>, String>)> {
        if self.series@.contains_key(name) {
            series_view(self.series@[name]@)
        } else {
            Seq::empty()
        }
    }

    /// Every series keeps at most `SERIES_LIMIT` points.
    pub closed spec fn wf(&self) -> bool {
        forall|name: Seq<char>| #[trigger] self.series_of(name).len() <= SERIES_LIMIT
    }

    /// A collector without series.
    pub fn new(config: MetricsConfig) -> (r: Self)
        ensures
            r.wf(),
            r.settings() == config,
            forall|name: Seq<char>| #[trigger] r.series_of(name).len() == 0,
    {
        MetricsCollector { config, series: StringMap::new() }
    }

    /// Records a metric as a point of its series at `now_ms` (see
    /// `series_after`); other series are unchanged.
    pub fn record_metric_at(&mut self, metric: Metric, now_ms: i64)
        requires
            old(self).wf(),
        ensures
            final(self).wf(),
            final(self).settings() == old(self).settings(),
            final(self).series_of(metric.name@) == series_after(
                old(self).series_of(metric.name@),
                (now_ms, metric.value_bits, metric.dimensions@),
                now_ms,
                old(self).settings().retention_days,
            ),
            forall|name: Seq<char>| name != metric.name@ ==> #[trigger] final(self).series_of(name) == old(self).series_of(name),
    {
        let ghost name = metric.name@;
        let ghost before = self.series_of(name);
        let mut points: Vec<MetricPoint> = match self.series.position(metric.name.as_str()) {
            Some(i) => self.series.swap_value(i, Vec::new()),
            None => Vec::new(),
        };
        assert(series_view(points@) == before);
        let point = MetricPoint { timestamp: now_ms, value_bits: metric.value_bits, dimensions: metric.dimensions };
        let ghost pv = point_view(point);
        points.push(point);
        assert(series_view(points@) =~= before.push(pv));
        let cutoff: i128 = now_ms as i128 - self.config.retention_days as i128 * DAY_MILLIS as i128;
        let ghost full = series_view(points@);
        while points.len() > 0 && (points[0].timestamp as i128) < cutoff
            invariant
                drop_older(series_view(points@), cutoff as int) == drop_older(full, cutoff as int),
            decreases points.len(),
        {
            let ghost s = series_view(points@);
            points.remove(0);
            assert(series_view(points@) =~= s.drop_first());
        }
        let ghost kept = series_view(points@);
        assert(kept == drop_older(full, cutoff as int));
        let ghost mut dropped: int = 0;
        while points.len() > SERIES_LIMIT
            invariant
                0 <= dropped <= kept.len(),
                series_view(points@) == kept.skip(dropped),
                kept.len() > SERIES_LIMIT ==> dropped <= kept.len() - SERIES_LIMIT,
                kept.len() <= SERIES_LIMIT ==> dropped == 0,
            decreases points.len(),
        {
            let ghost s = series_view(points@);
            assert(s.len() == points@.len());
            assert(s.len() == kept.len() - dropped);
            points.remove(0);
            assert(series_view(points@) =~= s.drop_first());
            assert(s.drop_first() =~= kept.skip(dropped + 1));
            proof {
                dropped = dropped + 1;
            }
        }
        assert(series_view(points@) =~= capped(kept));
        let ghost others = self.series@;
        self.series.insert(metric.name, points);
        proof {
            assert forall|n: Seq<char>| n != name implies #[trigger] self.series_of(n) == old(self).series_of(n) by {
                assert(self.series@.contains_key(n) == others.contains_key(n));
            }
            assert forall|n: Seq<char>| #[trigger] self.series_of(n).len() <= SERIES_LIMIT by {
                if n != name {
                    assert(old(self).series_of(n).len() <= SERIES_LIMIT);
                }
            }
        }
    }

    /// Records a metric at the time the system clock gives.
    pub fn record_metric(&mut self, metric: Metric)
        requires
            old(self).wf(),
        ensures
            final(self).wf(),
            final(self).settings() == old(self).settings(),
            exists|now_ms: i64|
                #[trigger] final(self).series_of(metric.name@) == series_after(
                    old(self).series_of(metric.name@),
                    (now_ms, metric.value_bits, metric.dimensions@),
                    now_ms,
                    old(self).settings().retention_days,
                ),
            forall|name: Seq<char>| name != metric.name@ ==> #[trigger] final(self).series_of(name) == old(self).series_of(name),
    {
        let now = utc_now_millis();
        self.record_metric_at(metric, now);
    }

    /// The points of the named series within the range, in order.
    pub fn get_metrics(&self, name: &str, time_range: &TimeRange) -> (r: Vec<MetricPoint>)
        ensures
            series_view(r@) == points_within(self.series_of(name@), *time_range),
    {
        let mut out: Vec<MetricPoint> = Vec::new();
        match self.series.get(name) {
            Some(points) => {
                let ghost s = series_view(points@);
                let mut i: usize = 0;
                while i < points.len()
                    invariant
                        i <= points@.len(),
                        s == series_view(points@),
                        series_view(out@) == points_within(s.take(i as int), *time_range),
                    decreases points.len() - i,
                {
                    assert(s.take(i as int + 1).drop_last() =~= s.take(i as int));
                    let p = &points[i];
                    if time_range.start <= p.timestamp && p.timestamp <= time_range.end {
                        let ghost before = series_view(out@);
                        out.push(copy_point(p));
                        assert(series_view(out@) =~= before.push(point_view(*p)));
                    }
                    i = i + 1;
                }
                assert(s.take(i as int) =~= s);
            },
            None => {
                assert(series_view(out@) =~= Seq::<(i64, u64, Map<Seq<char>, String>)>::empty());
            },
        }
        out
    }
}

/// Recording keeps every series within `SERIES_LIMIT` points, and the point
/// just recorded is its series' newest.
pub proof fn law_series_bounded_newest_last(
    s: Seq<(i64, u64, Map<Seq<char>, String>)>,
    p: (i64, u64, Map<Seq<char>, String>),
    retention_days: u32,
)
    ensures
        series_after(s, p, p.0, retention_days).len() <= SERIES_LIMIT,
        series_after(s, p, p.0, retention_days).len() > 0 ==> series_after(s, p, p.0, retention_days).last() == p,
{
    let cutoff = retention_cutoff(p.0, retention_days);
    lemma_drop_older_suffix(s.push(p), cutoff);
    let d = drop_older(s.push(p), cutoff);
    if d.len() > 0 {
        assert(d.last() == p);
        if d.len() > SERIES_LIMIT {
            assert(d.skip(d.len() - SERIES_LIMIT).last() == d.last());
        }
    }
}

proof fn lemma_drop_older_suffix(s: Seq<(i64, u64, Map<Seq<char>, String>)>, cutoff: int)
    ensures
        drop_older(s, cutoff).len() <= s.len(),
        drop_older(s, cutoff).len() > 0 ==> drop_older(s, cutoff).last() == s.last(),
    decreases s.len(),
{
    if s.len() > 0 && s[0].0 < cutoff {
        lemma_drop_older_suffix(s.drop_first(), cutoff);
        if s.drop_first().len() > 0 {
            assert(s.drop_first().last() == s.last());
        }
    }
}

/// How serious an alert is.
#[derive(Debug, Clone, Copy, PartialEq, Eq, Structural)]
pub enum AlertSeverity {
    Info,
    Warning,
    Critical,
}

/// What an alert is about.
#[derive(Debug, Clone, Copy, PartialEq, Eq, Structural)]
pub enum AlertCategory {
    Performance,
    Security,
    Availability,
    Cost,
}

/// An alert.  Times are in seconds since the Unix epoch (UTC).
#[derive(Debug)]
pub struct Alert {
    pub id: String,
    pub severity: AlertSeverity,
    pub message: String,
    pub category: AlertCategory,
    pub created_at: i64,
    pub acknowledged: bool,
    pub acknowledged_by: Option<String>,
    pub acknowledged_at: Option<i64>,
    pub resolved: bool,
    pub resolved_at: Option<i64>,
}

fn copy_opt_text(o: &Option<String>) -> (r: Option<String>)
    ensures
        r == *o,
{
    match o {
        Some(s) => Some(s.clone()),
        None => None,
    }
}

impl Alert {
    /// A new alert made at `created_at`: not acknowledged, not resolved.
    pub fn new(id: &str, severity: AlertSeverity, message: String, category: AlertCategory, created_at: i64) -> (r: Self)
        ensures
            r.id@ == id@,
            r.severity == severity,
            r.message == message,
            r.category == category,
            r.created_at == created_at,
            !r.acknowledged,
            r.acknowledged_by is None,
            r.acknowledged_at is None,
            !r.resolved,
            r.resolved_at is None,
    {
        Alert {
            id: owned(id),
            severity,
            message,
            category,
            created_at,
            acknowledged: false,
            acknowledged_by: None,
            acknowledged_at: None,
            resolved: false,
            resolved_at: None,
        }
    }

    /// A copy of the alert.
    pub fn duplicate(&self) -> (r: Self)
        ensures
            r == *self,
    {
        Alert {
            id: self.id.clone(),
            severity: self.severity,
            message: self.message.clone(),
            category: self.category,
            created_at: self.created_at,
            acknowledged: self.acknowledged,
            acknowledged_by: copy_opt_text(&self.acknowledged_by),
            acknowledged_at: self.acknowledged_at,
            resolved: self.resolved,
            resolved_at: self.resolved_at,
        }
    }
}

/// The most alerts the history keeps.
pub const ALERT_HISTORY_LIMIT: usize = 1000;

/// The alerts in force after new ones: each new alert takes the place of
/// the one with its identifier, later ones over earlier ones.
pub open spec fn with_alerts(active: Map<Seq<char>, Alert>, new: Seq<Alert>) -> Map<Seq<char>, Alert>
    decreases new.len(),
{
    if new.len() == 0 {
        active
    } else {
        with_alerts(active, new.drop_last()).insert(new.last().id@, new.last())
    }
}

/// The last `ALERT_HISTORY_LIMIT` alerts of a history.
pub open spec fn recent(history: Seq<Alert>) -> Seq<Alert> {
    if history.len() > ALERT_HISTORY_LIMIT {
        history.skip(history.len() - ALERT_HISTORY_LIMIT)
    } else {
        history
    }
}

/// `a` is the alert `b` acknowledged by `user` at `now`.
pub open spec fn acknowledged_as(a: Alert, b: Alert, user: Seq<char>, now: i64) -> bool {
    &&& a.id == b.id
    &&& a.severity == b.severity
    &&& a.message == b.message
    &&& a.category == b.category
    &&& a.created_at == b.created_at
    &&& a.acknowledged
    &&& a.acknowledged_by matches Some(u) && u@ == user
    &&& a.acknowledged_at == Some(now)
    &&& a.resolved == b.resolved
    &&& a.resolved_at == b.resolved_at
}

/// The alerts in force and the history of recent alerts.
#[derive(Debug)]
pub struct IntelligentAlertingSystem {
    active_alerts: StringMap<Alert>,
    alert_history: Vec<Alert>,
}

impl IntelligentAlertingSystem {
    /// The alerts in force, by identifier.
    pub closed spec fn active(&self) -> Map<Seq<char>, Alert> {
        self.active_alerts@
    }

    /// The alerts in force, in the order they were first raised.
    pub closed spec fn active_order(&self) -> Seq<Alert> {
        self.active_alerts.entry_seq().map_values(|e: (String, Alert)| e.1)
    }

    /// The recent alerts, oldest first.
    pub closed spec fn history(&self) -> Seq<Alert> {
        self.alert_history@
    }

    /// The history holds at most `ALERT_HISTORY_LIMIT` alerts.
    pub open spec fn wf(&self) -> bool {
        self.history().len() <= ALERT_HISTORY_LIMIT
    }

    /// No alerts.
    pub fn new() -> (r: Self)
        ensures
            r.wf(),
            r.active() == Map::<Seq<char>, Alert>::empty(),
            r.history().len() == 0,
    {
        IntelligentAlertingSystem { active_alerts: StringMap::new(), alert_history: Vec::new() }
    }

    /// Puts the new alerts in force (each in place of the one with its
    /// identifier) and appends them to the history, which keeps its last
    /// `ALERT_HISTORY_LIMIT`.
    pub fn record_alerts(&mut self, new_alerts: &Vec<Alert>)
        requires
            old(self).wf(),
        ensures
            final(self).wf(),
            final(self).active() == with_alerts(old(self).active(), new_alerts@),
            final(self).history() == recent(old(self).history() + new_alerts@),
    {
        let ghost h0 = self.alert_history@;
        let mut i: usize = 0;
        while i < new_alerts.len()
            invariant
                i <= new_alerts@.len(),
                self.active_alerts@ == with_alerts(old(self).active_alerts@, new_alerts@.take(i as int)),
                self.alert_history@ == h0 + new_alerts@.take(i as int),
                h0 == old(self).alert_history@,
            decreases new_alerts.len() - i,
        {
            assert(new_alerts@.take(i as int + 1).drop_last() =~= new_alerts@.take(i as int));
            let a = &new_alerts[i];
            self.active_alerts.insert(a.id.clone(), a.duplicate());
            self.alert_history.push(a.duplicate());
            assert(h0 + new_alerts@.take(i as int + 1) =~= (h0 + new_alerts@.take(i as int)).push(new_alerts@[i as int]));
            i = i + 1;
        }
        assert(new_alerts@.take(i as int) =~= new_alerts@);
        assert(self.active_alerts@ == with_alerts(old(self).active_alerts@, new_alerts@));
        let ghost full = self.alert_history@;
        let ghost mut dropped: int = 0;
        while self.alert_history.len() > ALERT_HISTORY_LIMIT
            invariant
                0 <= dropped <= full.len(),
                self.alert_history@ == full.skip(dropped),
                self.active_alerts@ == with_alerts(old(self).active_alerts@, new_alerts@),
                full.len() > ALERT_HISTORY_LIMIT ==> dropped <= full.len() - ALERT_HISTORY_LIMIT,
                full.len() <= ALERT_HISTORY_LIMIT ==> dropped == 0,
            decreases self.alert_history.len(),
        {
            self.alert_history.remove(0);
            assert(self.alert_history@ =~= full.skip(dropped + 1));
            proof {
                dropped = dropped + 1;
            }
        }
        assert(self.alert_history@ =~= recent(full));
    }

    /// The alerts in force, in the order they were first raised.
    pub fn get_active_alerts(&self) -> (r: Vec<Alert>)
        ensures
            r@ == self.active_order(),
    {
        let entries = self.active_alerts.entry_list();
        let mut out: Vec<Alert> = Vec::new();
        let mut i: usize = 0;
        while i < entries.len()
            invariant
                i <= entries@.len(),
                entries@ == self.active_alerts.entry_seq(),
                out@ == entries@.take(i as int).map_values(|e: (String, Alert)| e.1),
            decreases entries.len() - i,
        {
            out.push(entries[i].1.duplicate());
            assert(entries@.take(i as int + 1).map_values(|e: (String, Alert)| e.1) =~= entries@.take(i as int).map_values(
                |e: (String, Alert)| e.1,
            ).push(entries@[i as int].1));
            i = i + 1;
        }
        assert(entries@.take(i as int) =~= entries@);
        out
    }

    /// Marks the alert in force with the identifier as acknowledged by
    /// `user` at `now`; nothing changes when there is none.
    pub fn acknowledge_alert_at(&mut self, alert_id: &str, user: &str, now: i64)
        requires
            old(self).wf(),
        ensures
            final(self).wf(),
            final(self).history() == old(self).history(),
            final(self).active().dom() == old(self).active().dom(),
            forall|k: Seq<char>| k != alert_id@ ==> #[trigger] final(self).active()[k] == old(self).active()[k],
            old(self).active().contains_key(alert_id@) ==> acknowledged_as(
                final(self).active()[alert_id@],
                old(self).active()[alert_id@],
                user@,
                now,
            ),
    {
        let updated = match self.active_alerts.get(alert_id) {
            Some(a) => {
                let mut b = a.duplicate();
                b.acknowledged = true;
                b.acknowledged_by = Some(owned(user));
                b.acknowledged_at = Some(now);
                Some(b)
            },
            None => None,
        };
        match updated {
            Some(b) => {
                self.active_alerts.insert(owned(alert_id), b);
                assert(self.active_alerts@.dom() =~= old(self).active_alerts@.dom());
            },
            None => {},
        }
    }

    /// As `acknowledge_alert_at`, at the time the system clock gives.
    pub fn acknowledge_alert(&mut self, alert_id: &str, user: &str)
        requires
            old(self).wf(),
        ensures
            final(self).wf(),
            final(self).history() == old(self).history(),
            final(self).active().dom() == old(self).active().dom(),
            forall|k: Seq<char>| k != alert_id@ ==> #[trigger] final(self).active()[k] == old(self).active()[k],
            old(self).active().contains_key(alert_id@) ==> exists|now: i64|
                acknowledged_as(#[trigger] final(self).active()[alert_id@], old(self).active()[alert_id@], user@, now),
    {
        let now = utc_now_seconds();
        self.acknowledge_alert_at(alert_id, user, now);
    }
}

/// Recording alerts never lets the history pass its limit, and keeps the
/// newest alerts: the last alert recorded is the history's last.
pub proof fn law_history_keeps_newest(history: Seq<Alert>, new: Seq<Alert>)
    requires
        history.len() <= ALERT_HISTORY_LIMIT,
    ensures
        recent(history + new).len() <= ALERT_HISTORY_LIMIT,
        new.len() > 0 ==> recent(history + new).last() == new.last(),
{
    let all = history + new;
    if new.len() > 0 {
        assert(all.last() == new.last());
        if all.len() > ALERT_HISTORY_LIMIT {
            let r = all.skip(all.len() - ALERT_HISTORY_LIMIT);
            assert(r.last() == all.last());
        }
    }
}


/// How badly a query holds things up.
#[derive(Debug, Clone, Copy, PartialEq, Eq, Structural)]
pub enum BottleneckSeverity {
    Info,
    Warning,
    Critical,
}

/// A query found to hold things up, with advice.
#[derive(Debug)]
pub struct Bottleneck {
    pub query: String,
    pub issue: String,
    pub severity: BottleneckSeverity,
    pub recommendation: String,
}

/// Whether a query with this mean time (in microseconds) is a bottleneck:
/// over one second is, and over five seconds is critical.
pub open spec fn bottleneck_severity(avg_time_us: u64) -> Option<BottleneckSeverity> {
    if avg_time_us > 1_000_000 {
        Some(if avg_time_us > 5_000_000 {
            BottleneckSeverity::Critical
        } else {
            BottleneckSeverity::Warning
        })
    } else {
        None
    }
}

/// The bottleneck a query with this mean time (in microseconds) makes, if
/// any (see `bottleneck_severity`): a slow execution, with the advice to add
/// indexes or restructure the query.
pub fn bottleneck_for(query: &str, avg_time_us: u64) -> (r: Option<Bottleneck>)
    ensures
        match bottleneck_severity(avg_time_us) {
            None => r is None,
            Some(sev) => r matches Some(b) && b.query@ == query@ && b.severity == sev
                && b.issue@ == "Slow query execution"@
                && b.recommendation@ == "Consider adding indexes or optimizing query structure"@,
        },
{
    if avg_time_us > 1_000_000 {
        let severity = if avg_time_us > 5_000_000 {
            BottleneckSeverity::Critical
        } else {
            BottleneckSeverity::Warning
        };
        Some(
            Bottleneck {
                query: owned(query),
                issue: owned("Slow query execution"),
                severity,
                recommendation: owned("Consider adding indexes or optimizing query structure"),
            },
        )
    } else {
        None
    }
}

/// Forecasting settings.
#[derive(Debug, Clone, Copy, PartialEq, Eq, Structural)]
pub struct PredictiveConfig {
    pub enabled: bool,
    pub prediction_horizon_days: u32,
    pub model_update_interval_hours: u32,
}

/// Kinds of dashboard panel.
#[derive(Debug, Clone, Copy, PartialEq, Eq, Structural)]
pub enum PanelType {
    TimeSeries,
    Gauge,
    BarChart,
    PieChart,
}

/// Dashboard settings.
#[derive(Debug, Clone, Copy, PartialEq, Eq, Structural)]
pub struct DashboardConfig {
    pub enabled: bool,
    pub default_refresh_interval_seconds: u32,
    pub max_dashboards_per_user: usize,
}

} // verus!
