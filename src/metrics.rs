use vstd::prelude::*;

verus! {

#[verifier::external_type_specification]
#[verifier::external_body]
pub struct ExPrometheusError(prometheus::Error);

/// The prometheus handles behind the registry: the registry that renders,
/// the active-connection gauge and the `requests_total` counter family
/// labelled by route and status. prometheus's counter family has a private
/// builder type in its signature, so the handles are held here opaquely and
/// reached only through the functions below.
#[verifier::external_body]
pub struct PrometheusMetrics {
    registry: prometheus::Registry,
    active: prometheus::IntGauge,
    requests: prometheus::IntCounterVec,
}

/// The value of the active-connection gauge.
pub uninterp spec fn gauge_value(m: PrometheusMetrics) -> int;

/// For each `(route, status)` label pair, the value that reading the counter
/// of that pair reports; a pair never counted reads zero, whether or not
/// reading it created its series.
pub uninterp spec fn series_counts(m: PrometheusMetrics) -> Map<(Seq<char>, u16), int>;

/// The sum of every series of `requests_total`.
pub uninterp spec fn series_total(m: PrometheusMetrics) -> int;

/// The name the gauge was created with.
pub uninterp spec fn gauge_name(m: PrometheusMetrics) -> Seq<char>;

/// The name the counter family was created with.
pub uninterp spec fn counter_name(m: PrometheusMetrics) -> Seq<char>;

/// The name of the counter family's first label (the route).
pub uninterp spec fn route_label_name(m: PrometheusMetrics) -> Seq<char>;

/// The name of the counter family's second label (the status).
pub uninterp spec fn status_label_name(m: PrometheusMetrics) -> Seq<char>;

/// The identifier prometheus gives the descriptor of a metric with this
/// name and no constant labels; a registry refuses two equal identifiers.
pub uninterp spec fn metric_desc_id(name: Seq<char>) -> u64;

/// The key under which prometheus files the series of a label pair: a hash
/// of the two label values, the status written in decimal. Pairs with one
/// key share one counter.
pub uninterp spec fn label_hash(route: Seq<char>, status: u16) -> u64;

pub open spec fn count_in(counts: Map<(Seq<char>, u16), int>, route: Seq<char>, status: u16) -> int {
    if counts.dom().contains((route, status)) {
        counts[(route, status)]
    } else {
        0
    }
}

/// The character of a decimal digit.
pub open spec fn digit_char(d: nat) -> char {
    if d == 0 { '0' } else if d == 1 { '1' } else if d == 2 { '2' } else if d == 3 { '3' }
    else if d == 4 { '4' } else if d == 5 { '5' } else if d == 6 { '6' } else if d == 7 { '7' }
    else if d == 8 { '8' } else { '9' }
}

/// `n` written in decimal, without leading zeros.
pub open spec fn decimal(n: nat) -> Seq<char>
    decreases n,
{
    if n < 10 {
        seq![digit_char(n)]
    } else {
        decimal(n / 10).push(digit_char(n % 10))
    }
}

/// A label value as the exposition format writes it: backslash, newline and
/// double quote are escaped with a backslash.
pub open spec fn escaped(s: Seq<char>) -> Seq<char>
    decreases s.len(),
{
    if s.len() == 0 {
        seq![]
    } else {
        let c = s.last();
        escaped(s.drop_last()) + if c == '\\' {
            seq!['\\', '\\']
        } else if c == '\n' {
            seq!['\\', 'n']
        } else if c == '"' {
            seq!['\\', '"']
        } else {
            seq![c]
        }
    }
}

/// The exposition line of an unlabelled sample whose value is `v`.
pub open spec fn plain_line(name: Seq<char>, v: nat) -> Seq<char> {
    name + seq![' '] + decimal(v) + seq!['\n']
}

/// The exposition line of a counter series with two labels, whose value is
/// `v`.
pub open spec fn series_line(
    name: Seq<char>,
    label_a: Seq<char>,
    label_b: Seq<char>,
    route: Seq<char>,
    status: u16,
    v: nat,
) -> Seq<char> {
    name + seq!['{'] + label_a + seq!['=', '"'] + escaped(route) + seq!['"', ','] + label_b + seq!['=', '"']
        + decimal(status as nat) + seq!['"', '}', ' '] + decimal(v) + seq!['\n']
}

/// Integers below this bound are written exactly by the exposition format,
/// which prints every value as a 64-bit float.
pub open spec fn exact_bound() -> int {
    0x20000000000000
}

/// The characters of a prometheus identifier: ASCII letters and `_`, and
/// `:` in metric names.
pub open spec fn ident_start(c: char, colon: bool) -> bool {
    ('a' <= c && c <= 'z') || ('A' <= c && c <= 'Z') || c == '_' || (colon && c == ':')
}

/// A valid prometheus metric name (`colon`) or label name: not empty, an
/// identifier character first, identifier characters or digits after it.
pub open spec fn valid_ident(s: Seq<char>, colon: bool) -> bool {
    &&& s.len() > 0
    &&& ident_start(s[0], colon)
    &&& forall|i: int| 1 <= i < s.len() ==> ident_start(#[trigger] s[i], colon) || ('0' <= s[i] && s[i] <= '9')
}

/// Relies on prometheus's Desc::new: the identifier of the descriptor of a
/// metric named `name` without constant labels.
#[verifier::external_body]
fn desc_id(name: &str, help: &str) -> (r: u64)
    requires
        help@.len() > 0,
        valid_ident(name@, true),
    ensures
        r == metric_desc_id(name@),
{
    let labels = std::collections::HashMap::new();
    match prometheus::core::Desc::new(name.to_string(), help.to_string(), Vec::new(), labels) {
        Ok(desc) => desc.id,
        Err(_) => 0,
    }
}

impl PrometheusMetrics {
    /// Relies on prometheus's IntGauge::new, IntCounterVec::new, Registry::new
    /// and Registry::register: with non-empty help strings, valid names of
    /// distinct descriptor identifiers and distinct label names, creating and
    /// registering cannot fail; a fresh gauge is zero and every series reads
    /// zero.
    #[verifier::external_body]
    fn create(
        gauge_name_text: &str,
        gauge_help: &str,
        counter_name_text: &str,
        counter_help: &str,
        route_label: &str,
        status_label: &str,
    ) -> (r: Result<PrometheusMetrics, prometheus::Error>)
        requires
            gauge_help@.len() > 0,
            counter_help@.len() > 0,
            valid_ident(gauge_name_text@, true),
            valid_ident(counter_name_text@, true),
            gauge_name_text@ != counter_name_text@,
            metric_desc_id(gauge_name_text@) != metric_desc_id(counter_name_text@),
            valid_ident(route_label@, false),
            valid_ident(status_label@, false),
            route_label@ != status_label@,
        ensures
            r is Ok,
            r matches Ok(m) ==> {
                &&& gauge_value(m) == 0
                &&& series_total(m) == 0
                &&& forall|route: Seq<char>, status: u16| #[trigger] count_in(series_counts(m), route, status) == 0
                &&& gauge_name(m) == gauge_name_text@
                &&& counter_name(m) == counter_name_text@
                &&& route_label_name(m) == route_label@
                &&& status_label_name(m) == status_label@
            },
    {
        let active = prometheus::IntGauge::new(gauge_name_text, gauge_help)?;
        let opts = prometheus::Opts::new(counter_name_text, counter_help);
        let requests = prometheus::IntCounterVec::new(opts, &[route_label, status_label])?;
        let registry = prometheus::Registry::new();
        registry.register(Box::new(active.clone()))?;
        registry.register(Box::new(requests.clone()))?;
        Ok(PrometheusMetrics { registry, active, requests })
    }

    /// Relies on prometheus's IntGauge::inc: adds one to the gauge.
    #[verifier::external_body]
    fn gauge_inc(&mut self)
        requires
            gauge_value(*old(self)) < i64::MAX,
        ensures
            gauge_value(*final(self)) == gauge_value(*old(self)) + 1,
            unchanged_but_gauge(*old(self), *final(self)),
        no_unwind
    {
        self.active.inc()
    }

    /// Relies on prometheus's IntGauge::dec: subtracts one from the gauge.
    #[verifier::external_body]
    fn gauge_dec(&mut self)
        requires
            gauge_value(*old(self)) > i64::MIN,
        ensures
            gauge_value(*final(self)) == gauge_value(*old(self)) - 1,
            unchanged_but_gauge(*old(self), *final(self)),
        no_unwind
    {
        self.active.dec()
    }

    /// Relies on prometheus's IntGauge::get: the gauge's current value.
    #[verifier::external_body]
    fn gauge_get(&self) -> (r: i64)
        ensures
            r == gauge_value(*self),
    {
        self.active.get()
    }

    /// Relies on prometheus's MetricVec::with_label_values and
    /// IntCounter::inc: the series filed under the key of the two label
    /// values is found or created, and one is added to it. Every pair of that
    /// key reads that counter; every other pair reads another one.
    #[verifier::external_body]
    fn series_inc(&mut self, route: &str, status: u16)
        requires
            count_in(series_counts(*old(self)), route@, status) < u64::MAX,
        ensures
            forall|r2: Seq<char>, s2: u16|
                #[trigger] count_in(series_counts(*final(self)), r2, s2) == count_in(series_counts(*old(self)), r2, s2)
                    + if label_hash(r2, s2) == label_hash(route@, status) { 1int } else { 0int },
            series_total(*final(self)) == series_total(*old(self)) + 1,
            gauge_value(*final(self)) == gauge_value(*old(self)),
            names_unchanged(*old(self), *final(self)),
        no_unwind
    {
        self.requests.with_label_values(&[route, &status.to_string()]).inc()
    }

    /// Relies on prometheus's MetricVec::with_label_values and
    /// IntCounter::get: the value of the series of the two label values.
    /// Reading may create the series at zero, which leaves every value read
    /// as it was.
    #[verifier::external_body]
    fn series_get(&self, route: &str, status: u16) -> (r: u64)
        ensures
            r == count_in(series_counts(*self), route@, status),
    {
        self.requests.with_label_values(&[route, &status.to_string()]).get()
    }

    /// Relies on prometheus's Registry::gather and TextEncoder::encode_to_string:
    /// encoding gathered families into a string cannot fail. Each sample is
    /// a line `name{labels sorted by name} value`, the value printed as a
    /// float. The gauge has its line; each counted pair has the line of the
    /// series filed under its key, labelled with the pair that created it.
    #[verifier::external_body]
    fn encode_text(&self) -> (r: Result<String, prometheus::Error>)
        requires
            route_label_name(*self).len() > 0,
            status_label_name(*self).len() > 0,
            (route_label_name(*self)[0] as u32) < (status_label_name(*self)[0] as u32),
        ensures
            r is Ok,
            r matches Ok(text) ==> {
                &&& 0 <= gauge_value(*self) < exact_bound() ==> contains(
                    text@,
                    plain_line(gauge_name(*self), gauge_value(*self) as nat),
                )
                &&& forall|route: Seq<char>, status: u16|
                    #![trigger count_in(series_counts(*self), route, status)]
                    0 < count_in(series_counts(*self), route, status) < exact_bound() ==> exists|
                        r2: Seq<char>,
                        s2: u16,
                    |
                        label_hash(r2, s2) == label_hash(route, status) && #[trigger] contains(
                            text@,
                            series_line(
                                counter_name(*self),
                                route_label_name(*self),
                                status_label_name(*self),
                                r2,
                                s2,
                                count_in(series_counts(*self), route, status) as nat,
                            ),
                        )
            },
    {
        prometheus::TextEncoder::new().encode_to_string(&self.registry.gather())
    }
}

/// The names are those of `before`.
pub open spec fn names_unchanged(before: PrometheusMetrics, after: PrometheusMetrics) -> bool {
    &&& gauge_name(after) == gauge_name(before)
    &&& counter_name(after) == counter_name(before)
    &&& route_label_name(after) == route_label_name(before)
    &&& status_label_name(after) == status_label_name(before)
}

/// Everything but the gauge is as in `before`.
pub open spec fn unchanged_but_gauge(before: PrometheusMetrics, after: PrometheusMetrics) -> bool {
    &&& series_counts(after) == series_counts(before)
    &&& series_total(after) == series_total(before)
    &&& names_unchanged(before, after)
}

/// Whether `needle` occurs in `text`.
pub open spec fn contains(text: Seq<char>, needle: Seq<char>) -> bool {
    exists|i: int| 0 <= i && i + needle.len() <= text.len() && #[trigger] text.subrange(i, i + needle.len()) == needle
}

/// Why the metrics registry could not do its work.
#[derive(Debug, Clone, Copy, PartialEq, Eq)]
pub enum MetricsError {
    /// The metrics could not be created or registered.
    Setup,
    /// The registry snapshot could not be encoded.
    Render,
}

/// Name of the active-connection gauge.
pub const ACTIVE_CONNECTIONS: &'static str = "active_connections";

/// Name of the counter family of handled requests.
pub const REQUESTS_TOTAL: &'static str = "requests_total";

/// Process-wide request metrics: the active-connection gauge and the
/// `requests_total` counter keyed by route and status.
pub struct MetricsRegistry {
    handles: PrometheusMetrics,
}

impl MetricsRegistry {
    /// The handles carry the metric and label names, and the gauge never
    /// goes below zero.
    #[verifier::type_invariant]
    spec fn well_formed(&self) -> bool {
        &&& gauge_name(self.handles) == ACTIVE_CONNECTIONS@
        &&& counter_name(self.handles) == REQUESTS_TOTAL@
        &&& route_label_name(self.handles) == ROUTE_LABEL@
        &&& status_label_name(self.handles) == STATUS_LABEL@
        &&& gauge_value(self.handles) >= 0
    }

    /// Number of requests currently between accept and response.
    pub closed spec fn active(&self) -> int {
        gauge_value(self.handles)
    }

    /// `requests_total` for one route and status.
    pub closed spec fn count(&self, route: Seq<char>, status: u16) -> int {
        count_in(series_counts(self.handles), route, status)
    }

    /// `requests_total` summed over every route and status.
    pub closed spec fn total(&self) -> int {
        series_total(self.handles)
    }

    /// A registry with the gauge at zero and no requests counted. It fails
    /// only if prometheus gives the two metric names the same descriptor
    /// identifier.
    pub fn new() -> (r: Result<MetricsRegistry, MetricsError>)
        ensures
            r is Ok <==> metric_desc_id(ACTIVE_CONNECTIONS@) != metric_desc_id(REQUESTS_TOTAL@),
            r is Err ==> r == Err::<MetricsRegistry, MetricsError>(MetricsError::Setup),
            r matches Ok(m) ==> {
                &&& m.active() == 0
                &&& m.total() == 0
                &&& forall|route: Seq<char>, status: u16| #[trigger] m.count(route, status) == 0
            },
    {
        proof {
            reveal_strlit("active_connections");
            reveal_strlit("Active TCP connections");
            reveal_strlit("requests_total");
            reveal_strlit("Total requests handled");
            reveal_strlit("route");
            reveal_strlit("status");
        }
        let gauge_id = desc_id(ACTIVE_CONNECTIONS, "Active TCP connections");
        let counter_id = desc_id(REQUESTS_TOTAL, "Total requests handled");
        if gauge_id == counter_id {
            return Err(MetricsError::Setup);
        }
        match PrometheusMetrics::create(
            ACTIVE_CONNECTIONS,
            "Active TCP connections",
            REQUESTS_TOTAL,
            "Total requests handled",
            ROUTE_LABEL,
            STATUS_LABEL,
        ) {
            Ok(handles) => Ok(MetricsRegistry { handles }),
            Err(_) => Err(MetricsError::Setup),
        }
    }

    /// One more request in flight.
    pub fn gauge_inc(&mut self)
        requires
            old(self).active() < i64::MAX,
        ensures
            admitted(*old(self), *final(self)),
            final(self).active() > 0,
    {
        proof {
            use_type_invariant(&*self);
        }
        self.handles.gauge_inc();
    }

    /// One request fewer in flight; there must be one.
    pub fn gauge_dec(&mut self)
        requires
            old(self).active() > 0,
        ensures
            final(self).active() == old(self).active() - 1,
            final(self).total() == old(self).total(),
            forall|route: Seq<char>, status: u16|
                #[trigger] final(self).count(route, status) == old(self).count(route, status),
    {
        proof {
            use_type_invariant(&*self);
        }
        self.handles.gauge_dec();
    }

    /// Counts one handled request of `route_id` answered with `status`: its
    /// series grows by one (shared with any pair filed under the same key),
    /// every other series stays as it was.
    pub fn increment(&mut self, route_id: &str, status: u16)
        requires
            old(self).count(route_id@, status) < u64::MAX,
        ensures
            counted(*old(self), *final(self), route_id@, status),
            final(self).active() == old(self).active(),
    {
        proof {
            use_type_invariant(&*self);
        }
        self.handles.series_inc(route_id, status);
    }

    /// The current value of the active-connection gauge.
    pub fn active_connections(&self) -> (r: i64)
        ensures
            r == self.active(),
    {
        self.handles.gauge_get()
    }

    /// The current value of `requests_total` for one route and status.
    pub fn requests_total(&self, route_id: &str, status: u16) -> (r: u64)
        ensures
            r == self.count(route_id@, status),
    {
        self.handles.series_get(route_id, status)
    }

    /// The registry snapshot in the text exposition format: the line
    /// `active_connections <value>`, and for every counted route and status
    /// the line `requests_total{route="..",status=".."} <value>` of its
    /// series (labelled by the pair that created the series, which has the
    /// same key).
    pub fn render(&self) -> (r: Result<String, MetricsError>)
        ensures
            r is Ok,
            r matches Ok(text) ==> snapshot_of(*self, text@),
    {
        proof {
            use_type_invariant(self);
            reveal_strlit("route");
            reveal_strlit("status");
        }
        let encoded = self.handles.encode_text();
        match encoded {
            Ok(text) => {
                proof {
                    assert(self.active() < exact_bound() ==> contains(text@, plain_line(ACTIVE_CONNECTIONS@, self.active() as nat)));
                    assert forall|route: Seq<char>, status: u16|
                        #![trigger self.count(route, status)]
                        0 < self.count(route, status) < exact_bound() implies exists|r2: Seq<char>, s2: u16|
                            label_hash(r2, s2) == label_hash(route, status) && #[trigger] contains(
                                text@,
                                series_line(REQUESTS_TOTAL@, ROUTE_LABEL@, STATUS_LABEL@, r2, s2, self.count(route, status) as nat),
                            ) by {
                        assert(count_in(series_counts(self.handles), route, status) == self.count(route, status));
                        let c = count_in(series_counts(self.handles), route, status);
                        assert(0 < c < exact_bound());
                        let (r2, s2) = choose|r2: Seq<char>, s2: u16|
                            label_hash(r2, s2) == label_hash(route, status) && #[trigger] contains(
                                text@,
                                series_line(counter_name(self.handles), route_label_name(self.handles), status_label_name(self.handles), r2, s2, c as nat),
                            );
                        assert(contains(text@, series_line(REQUESTS_TOTAL@, ROUTE_LABEL@, STATUS_LABEL@, r2, s2, self.count(route, status) as nat)));
                    }
                    assert(snapshot_of(*self, text@));
                }
                Ok(text)
            },
            Err(_) => Err(MetricsError::Render),
        }
    }
}

/// `text` holds the exposition of `m`: the line `active_connections
/// <value>`, and for every counted route and status the line
/// `requests_total{route="..",status=".."} <value>` of its series, labelled
/// by the pair that created the series (which has the same key). Values are
/// exact below `exact_bound()`.
pub open spec fn snapshot_of(m: MetricsRegistry, text: Seq<char>) -> bool {
    &&& m.active() < exact_bound() ==> contains(text, plain_line(ACTIVE_CONNECTIONS@, m.active() as nat))
    &&& forall|route: Seq<char>, status: u16|
        #![trigger m.count(route, status)]
        0 < m.count(route, status) < exact_bound() ==> exists|r2: Seq<char>, s2: u16|
            label_hash(r2, s2) == label_hash(route, status) && #[trigger] contains(
                text,
                series_line(REQUESTS_TOTAL@, ROUTE_LABEL@, STATUS_LABEL@, r2, s2, m.count(route, status) as nat),
            )
}

/// Name of the counter family's route label.
pub const ROUTE_LABEL: &'static str = "route";

/// Name of the counter family's status label.
pub const STATUS_LABEL: &'static str = "status";

/// `after` is `before` with one more request in flight and the counters
/// untouched.
pub open spec fn admitted(before: MetricsRegistry, after: MetricsRegistry) -> bool {
    &&& after.active() == before.active() + 1
    &&& after.total() == before.total()
    &&& forall|route: Seq<char>, status: u16|
        #[trigger] after.count(route, status) == before.count(route, status)
}

/// `after` is `before` with one request of `route` answered with `status`
/// counted: the sum over all series grows by one, the series filed under
/// that pair's key grows by one and every other series is unchanged.
pub open spec fn counted(before: MetricsRegistry, after: MetricsRegistry, route: Seq<char>, status: u16) -> bool {
    &&& after.total() == before.total() + 1
    &&& forall|r2: Seq<char>, s2: u16|
        #[trigger] after.count(r2, s2) == before.count(r2, s2)
            + if label_hash(r2, s2) == label_hash(route, status) { 1int } else { 0int }
}

} // verus!
