//! Prometheus-style metrics for database operations: query and error
//! counters, connection-pool gauges, and query-duration percentiles.
use vstd::prelude::*;
use vstd::string::*;

use crate::text::{contains_text, decimal, occurs_at, push_decimal};

verus! {

broadcast use vstd::seq_lib::group_to_multiset_ensures;

/// The abstract state of a [`DbMetrics`].
pub struct MetricsView {
    pub queries_total: u64,
    pub errors_total: u64,
    pub pool_connections_active: u64,
    pub pool_connections_idle: u64,
    /// Every recorded query duration in milliseconds, in ascending order.
    pub durations_ms: Seq<u64>,
}

/// `s` is in ascending order.
pub open spec fn ascending(s: Seq<u64>) -> bool {
    forall|i: int, j: int| 0 <= i <= j < s.len() ==> s[i] <= s[j]
}

/// A counter after one more event: it wraps around at `u64::MAX`, as an
/// atomic `fetch_add(1)` does.
pub open spec fn bumped(x: u64) -> u64 {
    if x == u64::MAX {
        0
    } else {
        (x + 1) as u64
    }
}

/// The nearest rank of the `p`-th percentile among `n` samples: the smallest
/// rank `r` with `100 * r >= p * n`.
pub open spec fn nearest_rank(p: nat, n: nat) -> nat {
    (p * n + 99) / 100
}

/// The `p`-th percentile (nearest-rank method) of the ascending samples `s`,
/// or zero when there are none.
pub open spec fn percentile(s: Seq<u64>, p: nat) -> u64 {
    if s.len() == 0 {
        0
    } else {
        s[nearest_rank(p, s.len()) - 1]
    }
}

/// One exposition line: the metric's name, a space, its value in decimal, and
/// a line break.
pub open spec fn metric_line(name: Seq<char>, value: nat) -> Seq<char> {
    name + " "@ + decimal(value) + "\n"@
}

/// One metric: its `# HELP` line, its `# TYPE` line, and its value line.
pub open spec fn metric_block(name: Seq<char>, kind: Seq<char>, help: Seq<char>, value: nat) -> Seq<
    char,
> {
    "# HELP "@ + name + " "@ + help + "\n# TYPE "@ + name + " "@ + kind + "\n"@ + metric_line(
        name,
        value,
    )
}

/// The metrics rendered in the Prometheus text exposition format: one block
/// per metric, separated by blank lines.
pub open spec fn prometheus_text(m: MetricsView) -> Seq<char> {
    metric_block(
        "aw_db_queries_total"@,
        "counter"@,
        "Total number of database queries executed"@,
        m.queries_total as nat,
    ) + "\n"@ + metric_block(
        "aw_db_errors_total"@,
        "counter"@,
        "Total number of database errors"@,
        m.errors_total as nat,
    ) + "\n"@ + metric_block(
        "aw_db_pool_connections_active"@,
        "gauge"@,
        "Number of active pool connections"@,
        m.pool_connections_active as nat,
    ) + "\n"@ + metric_block(
        "aw_db_pool_connections_idle"@,
        "gauge"@,
        "Number of idle pool connections"@,
        m.pool_connections_idle as nat,
    ) + "\n"@ + metric_block(
        "aw_db_query_duration_p50_ms"@,
        "gauge"@,
        "Median query duration in milliseconds"@,
        percentile(m.durations_ms, 50) as nat,
    ) + "\n"@ + metric_block(
        "aw_db_query_duration_p95_ms"@,
        "gauge"@,
        "95th percentile query duration in milliseconds"@,
        percentile(m.durations_ms, 95) as nat,
    ) + "\n"@ + metric_block(
        "aw_db_query_duration_p99_ms"@,
        "gauge"@,
        "99th percentile query duration in milliseconds"@,
        percentile(m.durations_ms, 99) as nat,
    )
}

fn push_metric_block(s: &mut String, name: &str, kind: &str, help: &str, value: u64)
    ensures
        final(s)@ == old(s)@ + metric_block(name@, kind@, help@, value as nat),
{
    s.append("# HELP ");
    s.append(name);
    s.append(" ");
    s.append(help);
    s.append("\n# TYPE ");
    s.append(name);
    s.append(" ");
    s.append(kind);
    s.append("\n");
    s.append(name);
    s.append(" ");
    push_decimal(s, value);
    s.append("\n");
    assert(final(s)@ =~= old(s)@ + metric_block(name@, kind@, help@, value as nat));
}

/// `after` is `before` with the sample `d` inserted at index `pos`.
pub open spec fn sample_inserted_at(before: Seq<u64>, d: u64, after: Seq<u64>, pos: int) -> bool {
    0 <= pos <= before.len() && after == before.insert(pos, d)
}

/// `after` is `before` with the sample `d` inserted at some index.
pub open spec fn sample_inserted(before: Seq<u64>, d: u64, after: Seq<u64>) -> bool {
    exists|pos: int| #[trigger] sample_inserted_at(before, d, after, pos)
}

/// A call that changes the metrics.
pub enum MetricsCall {
    /// `record_query` with a duration in milliseconds.
    RecordQuery(u64),
    /// `record_error`.
    RecordError,
    /// `update_pool_stats` with the active and idle counts.
    UpdatePoolStats(u64, u64),
}

/// What one call does to the metrics.
pub open spec fn metrics_step(before: MetricsView, call: MetricsCall, after: MetricsView) -> bool {
    match call {
        MetricsCall::RecordQuery(d) => {
            &&& after.queries_total == bumped(before.queries_total)
            &&& after.errors_total == before.errors_total
            &&& after.pool_connections_active == before.pool_connections_active
            &&& after.pool_connections_idle == before.pool_connections_idle
            &&& sample_inserted(before.durations_ms, d, after.durations_ms)
        },
        MetricsCall::RecordError => {
            &&& after.errors_total == bumped(before.errors_total)
            &&& after.queries_total == before.queries_total
            &&& after.pool_connections_active == before.pool_connections_active
            &&& after.pool_connections_idle == before.pool_connections_idle
            &&& after.durations_ms == before.durations_ms
        },
        MetricsCall::UpdatePoolStats(a, i) => {
            &&& after.pool_connections_active == a
            &&& after.pool_connections_idle == i
            &&& after.queries_total == before.queries_total
            &&& after.errors_total == before.errors_total
            &&& after.durations_ms == before.durations_ms
        },
    }
}

/// The metrics as `new` creates them.
pub open spec fn initial_metrics() -> MetricsView {
    MetricsView {
        queries_total: 0,
        errors_total: 0,
        pool_connections_active: 0,
        pool_connections_idle: 0,
        durations_ms: Seq::empty(),
    }
}

/// How many `record_query` calls `calls` holds.
pub open spec fn query_calls(calls: Seq<MetricsCall>) -> nat
    decreases calls.len(),
{
    if calls.len() == 0 {
        0
    } else {
        query_calls(calls.drop_last()) + if calls.last() is RecordQuery {
            1nat
        } else {
            0nat
        }
    }
}

/// How many `record_error` calls `calls` holds.
pub open spec fn error_calls(calls: Seq<MetricsCall>) -> nat
    decreases calls.len(),
{
    if calls.len() == 0 {
        0
    } else {
        error_calls(calls.drop_last()) + if calls.last() is RecordError {
            1nat
        } else {
            0nat
        }
    }
}

/// The active and idle counts of the latest `update_pool_stats` call in
/// `calls`, or zeros when there is none.
pub open spec fn latest_pool_stats(calls: Seq<MetricsCall>) -> (u64, u64)
    decreases calls.len(),
{
    if calls.len() == 0 {
        (0, 0)
    } else {
        match calls.last() {
            MetricsCall::UpdatePoolStats(a, i) => (a, i),
            _ => latest_pool_stats(calls.drop_last()),
        }
    }
}

/// Counters, gauges and query-duration samples of the database layer.
pub struct DbMetrics {
    queries_total: u64,
    errors_total: u64,
    pool_connections_active: u64,
    pool_connections_idle: u64,
    durations_ms: Vec<u64>,
}

impl View for DbMetrics {
    type V = MetricsView;

    closed spec fn view(&self) -> MetricsView {
        MetricsView {
            queries_total: self.queries_total,
            errors_total: self.errors_total,
            pool_connections_active: self.pool_connections_active,
            pool_connections_idle: self.pool_connections_idle,
            durations_ms: self.durations_ms@,
        }
    }
}

proof fn lemma_nearest_rank_bounds(p: nat, n: nat)
    requires
        1 <= p <= 100,
        n >= 1,
    ensures
        1 <= nearest_rank(p, n) <= n,
{
    assert(p * n >= 1) by (nonlinear_arith)
        requires
            p >= 1,
            n >= 1,
    ;
    assert(p * n <= 100 * n) by (nonlinear_arith)
        requires
            p <= 100,
    ;
}

proof fn lemma_nearest_rank_monotone(p: nat, q: nat, n: nat)
    requires
        p <= q,
    ensures
        nearest_rank(p, n) <= nearest_rank(q, n),
{
    assert(p * n <= q * n) by (nonlinear_arith)
        requires
            p <= q,
    ;
}

proof fn lemma_insert_to_multiset(s: Seq<u64>, i: int, a: u64)
    requires
        0 <= i <= s.len(),
    ensures
        s.insert(i, a).to_multiset() =~= s.to_multiset().insert(a),
{
    let t = s.insert(i, a);
    assert(t.remove(i) =~= s);
    assert(t[i] == a);
    assert(t.contains(a));
}

proof fn lemma_rank_step(p: nat, n: nat)
    requires
        p <= 100,
    ensures
        nearest_rank(p, n) <= nearest_rank(p, n + 1) <= nearest_rank(p, n) + 1,
{
    assert(p * (n + 1) == p * n + p) by (nonlinear_arith);
}

impl DbMetrics {
    /// The samples are kept in ascending order.
    pub open spec fn well_formed(&self) -> bool {
        ascending(self@.durations_ms)
    }

    /// Metrics with every counter and gauge at zero and no samples.
    pub fn new() -> (m: Self)
        ensures
            m.well_formed(),
            m@.queries_total == 0,
            m@.errors_total == 0,
            m@.pool_connections_active == 0,
            m@.pool_connections_idle == 0,
            m@.durations_ms == Seq::<u64>::empty(),
    {
        DbMetrics {
            queries_total: 0,
            errors_total: 0,
            pool_connections_active: 0,
            pool_connections_idle: 0,
            durations_ms: Vec::new(),
        }
    }

    /// Records one executed query that took `duration_ms` milliseconds: the
    /// query counter grows by one and the duration joins the samples.
    pub fn record_query(&mut self, operation: &str, duration_ms: u64)
        requires
            old(self).well_formed(),
        ensures
            final(self).well_formed(),
            final(self)@.queries_total == bumped(old(self)@.queries_total),
            final(self)@.durations_ms.to_multiset() == old(self)@.durations_ms.to_multiset().insert(
                duration_ms,
            ),
            sample_inserted(old(self)@.durations_ms, duration_ms, final(self)@.durations_ms),
            final(self)@.errors_total == old(self)@.errors_total,
            final(self)@.pool_connections_active == old(self)@.pool_connections_active,
            final(self)@.pool_connections_idle == old(self)@.pool_connections_idle,
            metrics_step(old(self)@, MetricsCall::RecordQuery(duration_ms), final(self)@),
    {
        self.queries_total = self.queries_total.wrapping_add(1);
        let len = self.durations_ms.len();
        let mut pos: usize = 0;
        while pos < len && self.durations_ms[pos] <= duration_ms
            invariant
                len == self.durations_ms@.len(),
                pos <= len,
                forall|k: int| 0 <= k < pos ==> self.durations_ms@[k] <= duration_ms,
            decreases len - pos,
        {
            pos = pos + 1;
        }
        let ghost before = self.durations_ms@;
        self.durations_ms.insert(pos, duration_ms);
        proof {
            lemma_insert_to_multiset(before, pos as int, duration_ms);
            let after = self.durations_ms@;
            assert(after =~= before.insert(pos as int, duration_ms));
            assert(sample_inserted_at(before, duration_ms, after, pos as int));
            assert forall|i: int, j: int| 0 <= i <= j < after.len() implies after[i]
                <= after[j] by {
                if i < pos && j > pos {
                    assert(after[i] == before[i]);
                    assert(after[j] == before[j - 1]);
                    assert(before[pos as int] > duration_ms);
                } else if i == pos && j > pos {
                    assert(after[j] == before[j - 1]);
                    assert(before[pos as int] > duration_ms);
                    assert(before[pos as int] <= before[j - 1]);
                } else if i < pos && j == pos {
                    assert(after[i] == before[i]);
                } else if i > pos {
                    assert(after[i] == before[i - 1]);
                    assert(after[j] == before[j - 1]);
                } else if j < pos {
                    assert(after[i] == before[i]);
                    assert(after[j] == before[j]);
                }
            }
        }
    }

    /// Sets the connection-pool gauges.
    pub fn update_pool_stats(&mut self, active: usize, idle: usize)
        requires
            old(self).well_formed(),
        ensures
            final(self).well_formed(),
            final(self)@.pool_connections_active == active as u64,
            final(self)@.pool_connections_idle == idle as u64,
            final(self)@.queries_total == old(self)@.queries_total,
            final(self)@.errors_total == old(self)@.errors_total,
            final(self)@.durations_ms == old(self)@.durations_ms,
            metrics_step(
                old(self)@,
                MetricsCall::UpdatePoolStats(active as u64, idle as u64),
                final(self)@,
            ),
    {
        self.pool_connections_active = active as u64;
        self.pool_connections_idle = idle as u64;
    }

    /// Records one database error: the error counter grows by one.
    pub fn record_error(&mut self, error_type: &str)
        requires
            old(self).well_formed(),
        ensures
            final(self).well_formed(),
            final(self)@.errors_total == bumped(old(self)@.errors_total),
            final(self)@.queries_total == old(self)@.queries_total,
            final(self)@.pool_connections_active == old(self)@.pool_connections_active,
            final(self)@.pool_connections_idle == old(self)@.pool_connections_idle,
            final(self)@.durations_ms == old(self)@.durations_ms,
            metrics_step(old(self)@, MetricsCall::RecordError, final(self)@),
    {
        self.errors_total = self.errors_total.wrapping_add(1);
    }

    /// Records one finished operation: a query, and an error as well when it failed.
    pub fn record_operation(&mut self, operation: &str, duration_ms: u64, failed: bool)
        requires
            old(self).well_formed(),
        ensures
            final(self).well_formed(),
            final(self)@.queries_total == bumped(old(self)@.queries_total),
            final(self)@.errors_total == if failed {
                bumped(old(self)@.errors_total)
            } else {
                old(self)@.errors_total
            },
            final(self)@.durations_ms.to_multiset() == old(self)@.durations_ms.to_multiset().insert(
                duration_ms,
            ),
            sample_inserted(old(self)@.durations_ms, duration_ms, final(self)@.durations_ms),
            final(self)@.pool_connections_active == old(self)@.pool_connections_active,
            final(self)@.pool_connections_idle == old(self)@.pool_connections_idle,
    {
        self.record_query(operation, duration_ms);
        if failed {
            self.record_error(operation);
        }
    }

    /// The number of recorded queries.
    pub fn get_queries_total(&self) -> (r: u64)
        ensures
            r == self@.queries_total,
    {
        self.queries_total
    }

    /// The number of recorded errors.
    pub fn get_errors_total(&self) -> (r: u64)
        ensures
            r == self@.errors_total,
    {
        self.errors_total
    }

    /// The active-connection gauge.
    pub fn get_pool_connections_active(&self) -> (r: u64)
        ensures
            r == self@.pool_connections_active,
    {
        self.pool_connections_active
    }

    /// The idle-connection gauge.
    pub fn get_pool_connections_idle(&self) -> (r: u64)
        ensures
            r == self@.pool_connections_idle,
    {
        self.pool_connections_idle
    }

    fn percentile_of(&self, p: u64) -> (r: u64)
        requires
            1 <= p <= 100,
        ensures
            r == percentile(self@.durations_ms, p as nat),
    {
        let n = self.durations_ms.len();
        if n == 0 {
            return 0;
        }
        assert((p as int) * (n as int) <= 100 * (n as int)) by (nonlinear_arith)
            requires
                p <= 100,
                n >= 0,
        ;
        assert(n <= usize::MAX);
        let rank: u128 = ((p as u128) * (n as u128) + 99) / 100;
        proof {
            lemma_nearest_rank_bounds(p as nat, n as nat);
        }
        self.durations_ms[(rank - 1) as usize]
    }

    /// The 50th, 95th and 99th percentiles of the recorded query durations.
    pub fn get_query_duration_percentiles(&self) -> (r: (u64, u64, u64))
        ensures
            r == (
                percentile(self@.durations_ms, 50),
                percentile(self@.durations_ms, 95),
                percentile(self@.durations_ms, 99),
            ),
    {
        (self.percentile_of(50), self.percentile_of(95), self.percentile_of(99))
    }

    /// The metrics in the Prometheus text exposition format.
    pub fn to_prometheus_format(&self) -> (r: String)
        ensures
            r@ == prometheus_text(self@),
    {
        let (p50, p95, p99) = self.get_query_duration_percentiles();
        let mut s = String::new();
        push_metric_block(
            &mut s,
            "aw_db_queries_total",
            "counter",
            "Total number of database queries executed",
            self.queries_total,
        );
        s.append("\n");
        push_metric_block(
            &mut s,
            "aw_db_errors_total",
            "counter",
            "Total number of database errors",
            self.errors_total,
        );
        s.append("\n");
        push_metric_block(
            &mut s,
            "aw_db_pool_connections_active",
            "gauge",
            "Number of active pool connections",
            self.pool_connections_active,
        );
        s.append("\n");
        push_metric_block(
            &mut s,
            "aw_db_pool_connections_idle",
            "gauge",
            "Number of idle pool connections",
            self.pool_connections_idle,
        );
        s.append("\n");
        push_metric_block(
            &mut s,
            "aw_db_query_duration_p50_ms",
            "gauge",
            "Median query duration in milliseconds",
            p50,
        );
        s.append("\n");
        push_metric_block(
            &mut s,
            "aw_db_query_duration_p95_ms",
            "gauge",
            "95th percentile query duration in milliseconds",
            p95,
        );
        s.append("\n");
        push_metric_block(
            &mut s,
            "aw_db_query_duration_p99_ms",
            "gauge",
            "99th percentile query duration in milliseconds",
            p99,
        );
        assert(s@ =~= prometheus_text(self@));
        s
    }
}

impl Default for DbMetrics {
    fn default() -> (m: Self)
        ensures
            m.well_formed(),
            m@.queries_total == 0,
            m@.errors_total == 0,
            m@.pool_connections_active == 0,
            m@.pool_connections_idle == 0,
            m@.durations_ms == Seq::<u64>::empty(),
    {
        Self::new()
    }
}

/// The reported percentiles are ordered: the median never exceeds the 95th
/// percentile, which never exceeds the 99th.
pub proof fn law_percentiles_ordered(samples: Seq<u64>)
    requires
        ascending(samples),
    ensures
        percentile(samples, 50) <= percentile(samples, 95),
        percentile(samples, 95) <= percentile(samples, 99),
{
    if samples.len() > 0 {
        lemma_nearest_rank_bounds(50, samples.len());
        lemma_nearest_rank_bounds(95, samples.len());
        lemma_nearest_rank_bounds(99, samples.len());
        lemma_nearest_rank_monotone(50, 95, samples.len());
        lemma_nearest_rank_monotone(95, 99, samples.len());
    }
}

/// The rank that the nearest-rank method uses is the least rank `r` with
/// `100 * r >= p * n`: it covers `p` percent of the samples, and one rank
/// fewer does not. Nothing caps the number of samples.
pub proof fn law_nearest_rank_is_least_covering(p: nat, n: nat)
    requires
        1 <= p <= 100,
        n >= 1,
    ensures
        1 <= nearest_rank(p, n) <= n,
        100 * nearest_rank(p, n) >= p * n,
        100 * (nearest_rank(p, n) - 1) < p * n,
{
    lemma_nearest_rank_bounds(p, n);
    let x = p * n;
    assert(100 * ((x + 99) / 100) >= x);
    assert(100 * ((x + 99) / 100) <= x + 99);
}

/// The `p`-th percentile of ascending samples is the sample at the least rank
/// `r` with `100 * r >= p * n`, over all `n` samples.
pub proof fn law_percentile_is_least_covering_sample(samples: Seq<u64>, p: nat, r: int)
    requires
        ascending(samples),
        1 <= p <= 100,
        1 <= r <= samples.len(),
        100 * r >= p * samples.len(),
        100 * (r - 1) < p * samples.len(),
    ensures
        percentile(samples, p) == samples[r - 1],
{
    law_nearest_rank_is_least_covering(p, samples.len());
    let k = nearest_rank(p, samples.len()) as int;
    assert(k == r);
}

proof fn lemma_contains_extend(x: Seq<char>, a: Seq<char>, b: Seq<char>, pat: Seq<char>)
    requires
        contains_text(x, pat),
    ensures
        contains_text(a + x, pat),
        contains_text(x + b, pat),
{
    let i = choose|i: int| occurs_at(x, pat, i);
    assert((a + x).subrange(a.len() + i, a.len() + i + pat.len()) =~= x.subrange(i, i + pat.len()));
    assert(occurs_at(a + x, pat, a.len() + i));
    assert((x + b).subrange(i, i + pat.len()) =~= x.subrange(i, i + pat.len()));
    assert(occurs_at(x + b, pat, i));
}

proof fn lemma_contains_append(x: Seq<char>, b: Seq<char>, pat: Seq<char>)
    requires
        contains_text(x, pat),
    ensures
        contains_text(x + b, pat),
{
    lemma_contains_extend(x, Seq::empty(), b, pat);
}

proof fn lemma_contains_prepend(a: Seq<char>, x: Seq<char>, pat: Seq<char>)
    requires
        contains_text(x, pat),
    ensures
        contains_text(a + x, pat),
{
    lemma_contains_extend(x, a, Seq::empty(), pat);
}

proof fn lemma_block_has_line(name: Seq<char>, kind: Seq<char>, help: Seq<char>, value: nat)
    ensures
        contains_text(metric_block(name, kind, help, value), "\n"@ + metric_line(name, value)),
{
    let head = "# HELP "@ + name + " "@ + help + "\n# TYPE "@ + name + " "@ + kind;
    let line = "\n"@ + metric_line(name, value);
    let block = metric_block(name, kind, help, value);
    assert(block =~= head + line);
    assert(block.subrange(head.len() as int, head.len() + line.len() as int) =~= line);
    assert(occurs_at(block, line, head.len() as int));
}

/// The exported text reports each metric on its own line, after a line
/// break: the query and error counters, the two pool gauges, and the 50th,
/// 95th and 99th percentiles of the samples, each on the line of its own
/// name. With ascending samples the exported p50, p95 and p99 are ordered.
pub proof fn law_prometheus_reports_each_metric(m: MetricsView)
    ensures
        contains_text(prometheus_text(m), "\n"@ + metric_line("aw_db_queries_total"@, m.queries_total as nat)),
        contains_text(prometheus_text(m), "\n"@ + metric_line("aw_db_errors_total"@, m.errors_total as nat)),
        contains_text(
            prometheus_text(m),
            "\n"@ + metric_line("aw_db_pool_connections_active"@, m.pool_connections_active as nat),
        ),
        contains_text(
            prometheus_text(m),
            "\n"@ + metric_line("aw_db_pool_connections_idle"@, m.pool_connections_idle as nat),
        ),
        contains_text(
            prometheus_text(m),
            "\n"@ + metric_line("aw_db_query_duration_p50_ms"@, percentile(m.durations_ms, 50) as nat),
        ),
        contains_text(
            prometheus_text(m),
            "\n"@ + metric_line("aw_db_query_duration_p95_ms"@, percentile(m.durations_ms, 95) as nat),
        ),
        contains_text(
            prometheus_text(m),
            "\n"@ + metric_line("aw_db_query_duration_p99_ms"@, percentile(m.durations_ms, 99) as nat),
        ),
        ascending(m.durations_ms) ==> percentile(m.durations_ms, 50) <= percentile(m.durations_ms, 95)
            <= percentile(m.durations_ms, 99),
{
    let nl = "\n"@;
    let b1 = metric_block(
        "aw_db_queries_total"@,
        "counter"@,
        "Total number of database queries executed"@,
        m.queries_total as nat,
    );
    let b2 = metric_block(
        "aw_db_errors_total"@,
        "counter"@,
        "Total number of database errors"@,
        m.errors_total as nat,
    );
    let b3 = metric_block(
        "aw_db_pool_connections_active"@,
        "gauge"@,
        "Number of active pool connections"@,
        m.pool_connections_active as nat,
    );
    let b4 = metric_block(
        "aw_db_pool_connections_idle"@,
        "gauge"@,
        "Number of idle pool connections"@,
        m.pool_connections_idle as nat,
    );
    let b5 = metric_block(
        "aw_db_query_duration_p50_ms"@,
        "gauge"@,
        "Median query duration in milliseconds"@,
        percentile(m.durations_ms, 50) as nat,
    );
    let b6 = metric_block(
        "aw_db_query_duration_p95_ms"@,
        "gauge"@,
        "95th percentile query duration in milliseconds"@,
        percentile(m.durations_ms, 95) as nat,
    );
    let b7 = metric_block(
        "aw_db_query_duration_p99_ms"@,
        "gauge"@,
        "99th percentile query duration in milliseconds"@,
        percentile(m.durations_ms, 99) as nat,
    );
    let p1 = b1;
    let q1 = p1 + nl;
    let p2 = q1 + b2;
    let q2 = p2 + nl;
    let p3 = q2 + b3;
    let q3 = p3 + nl;
    let p4 = q3 + b4;
    let q4 = p4 + nl;
    let p5 = q4 + b5;
    let q5 = p5 + nl;
    let p6 = q5 + b6;
    let q6 = p6 + nl;
    let p7 = q6 + b7;
    assert(prometheus_text(m) == p7);
    lemma_block_has_line("aw_db_queries_total"@, "counter"@, "Total number of database queries executed"@, m.queries_total as nat);
    lemma_contains_append(p1, nl, nl + metric_line("aw_db_queries_total"@, m.queries_total as nat));
    lemma_contains_append(q1, b2, nl + metric_line("aw_db_queries_total"@, m.queries_total as nat));
    lemma_contains_append(p2, nl, nl + metric_line("aw_db_queries_total"@, m.queries_total as nat));
    lemma_contains_append(q2, b3, nl + metric_line("aw_db_queries_total"@, m.queries_total as nat));
    lemma_contains_append(p3, nl, nl + metric_line("aw_db_queries_total"@, m.queries_total as nat));
    lemma_contains_append(q3, b4, nl + metric_line("aw_db_queries_total"@, m.queries_total as nat));
    lemma_contains_append(p4, nl, nl + metric_line("aw_db_queries_total"@, m.queries_total as nat));
    lemma_contains_append(q4, b5, nl + metric_line("aw_db_queries_total"@, m.queries_total as nat));
    lemma_contains_append(p5, nl, nl + metric_line("aw_db_queries_total"@, m.queries_total as nat));
    lemma_contains_append(q5, b6, nl + metric_line("aw_db_queries_total"@, m.queries_total as nat));
    lemma_contains_append(p6, nl, nl + metric_line("aw_db_queries_total"@, m.queries_total as nat));
    lemma_contains_append(q6, b7, nl + metric_line("aw_db_queries_total"@, m.queries_total as nat));
    lemma_block_has_line("aw_db_errors_total"@, "counter"@, "Total number of database errors"@, m.errors_total as nat);
    lemma_contains_prepend(q1, b2, nl + metric_line("aw_db_errors_total"@, m.errors_total as nat));
    lemma_contains_append(p2, nl, nl + metric_line("aw_db_errors_total"@, m.errors_total as nat));
    lemma_contains_append(q2, b3, nl + metric_line("aw_db_errors_total"@, m.errors_total as nat));
    lemma_contains_append(p3, nl, nl + metric_line("aw_db_errors_total"@, m.errors_total as nat));
    lemma_contains_append(q3, b4, nl + metric_line("aw_db_errors_total"@, m.errors_total as nat));
    lemma_contains_append(p4, nl, nl + metric_line("aw_db_errors_total"@, m.errors_total as nat));
    lemma_contains_append(q4, b5, nl + metric_line("aw_db_errors_total"@, m.errors_total as nat));
    lemma_contains_append(p5, nl, nl + metric_line("aw_db_errors_total"@, m.errors_total as nat));
    lemma_contains_append(q5, b6, nl + metric_line("aw_db_errors_total"@, m.errors_total as nat));
    lemma_contains_append(p6, nl, nl + metric_line("aw_db_errors_total"@, m.errors_total as nat));
    lemma_contains_append(q6, b7, nl + metric_line("aw_db_errors_total"@, m.errors_total as nat));
    lemma_block_has_line("aw_db_pool_connections_active"@, "gauge"@, "Number of active pool connections"@, m.pool_connections_active as nat);
    lemma_contains_prepend(q2, b3, nl + metric_line("aw_db_pool_connections_active"@, m.pool_connections_active as nat));
    lemma_contains_append(p3, nl, nl + metric_line("aw_db_pool_connections_active"@, m.pool_connections_active as nat));
    lemma_contains_append(q3, b4, nl + metric_line("aw_db_pool_connections_active"@, m.pool_connections_active as nat));
    lemma_contains_append(p4, nl, nl + metric_line("aw_db_pool_connections_active"@, m.pool_connections_active as nat));
    lemma_contains_append(q4, b5, nl + metric_line("aw_db_pool_connections_active"@, m.pool_connections_active as nat));
    lemma_contains_append(p5, nl, nl + metric_line("aw_db_pool_connections_active"@, m.pool_connections_active as nat));
    lemma_contains_append(q5, b6, nl + metric_line("aw_db_pool_connections_active"@, m.pool_connections_active as nat));
    lemma_contains_append(p6, nl, nl + metric_line("aw_db_pool_connections_active"@, m.pool_connections_active as nat));
    lemma_contains_append(q6, b7, nl + metric_line("aw_db_pool_connections_active"@, m.pool_connections_active as nat));
    lemma_block_has_line("aw_db_pool_connections_idle"@, "gauge"@, "Number of idle pool connections"@, m.pool_connections_idle as nat);
    lemma_contains_prepend(q3, b4, nl + metric_line("aw_db_pool_connections_idle"@, m.pool_connections_idle as nat));
    lemma_contains_append(p4, nl, nl + metric_line("aw_db_pool_connections_idle"@, m.pool_connections_idle as nat));
    lemma_contains_append(q4, b5, nl + metric_line("aw_db_pool_connections_idle"@, m.pool_connections_idle as nat));
    lemma_contains_append(p5, nl, nl + metric_line("aw_db_pool_connections_idle"@, m.pool_connections_idle as nat));
    lemma_contains_append(q5, b6, nl + metric_line("aw_db_pool_connections_idle"@, m.pool_connections_idle as nat));
    lemma_contains_append(p6, nl, nl + metric_line("aw_db_pool_connections_idle"@, m.pool_connections_idle as nat));
    lemma_contains_append(q6, b7, nl + metric_line("aw_db_pool_connections_idle"@, m.pool_connections_idle as nat));
    lemma_block_has_line("aw_db_query_duration_p50_ms"@, "gauge"@, "Median query duration in milliseconds"@, percentile(m.durations_ms, 50) as nat);
    lemma_contains_prepend(q4, b5, nl + metric_line("aw_db_query_duration_p50_ms"@, percentile(m.durations_ms, 50) as nat));
    lemma_contains_append(p5, nl, nl + metric_line("aw_db_query_duration_p50_ms"@, percentile(m.durations_ms, 50) as nat));
    lemma_contains_append(q5, b6, nl + metric_line("aw_db_query_duration_p50_ms"@, percentile(m.durations_ms, 50) as nat));
    lemma_contains_append(p6, nl, nl + metric_line("aw_db_query_duration_p50_ms"@, percentile(m.durations_ms, 50) as nat));
    lemma_contains_append(q6, b7, nl + metric_line("aw_db_query_duration_p50_ms"@, percentile(m.durations_ms, 50) as nat));
    lemma_block_has_line("aw_db_query_duration_p95_ms"@, "gauge"@, "95th percentile query duration in milliseconds"@, percentile(m.durations_ms, 95) as nat);
    lemma_contains_prepend(q5, b6, nl + metric_line("aw_db_query_duration_p95_ms"@, percentile(m.durations_ms, 95) as nat));
    lemma_contains_append(p6, nl, nl + metric_line("aw_db_query_duration_p95_ms"@, percentile(m.durations_ms, 95) as nat));
    lemma_contains_append(q6, b7, nl + metric_line("aw_db_query_duration_p95_ms"@, percentile(m.durations_ms, 95) as nat));
    lemma_block_has_line("aw_db_query_duration_p99_ms"@, "gauge"@, "99th percentile query duration in milliseconds"@, percentile(m.durations_ms, 99) as nat);
    lemma_contains_prepend(q6, b7, nl + metric_line("aw_db_query_duration_p99_ms"@, percentile(m.durations_ms, 99) as nat));
    if ascending(m.durations_ms) {
        law_percentiles_ordered(m.durations_ms);
    }
}

/// A new sample moves each percentile towards itself: a sample at or above
/// a percentile does not lower it, and one at or below it does not raise it.
pub proof fn law_new_sample_moves_percentile(before: Seq<u64>, d: u64, after: Seq<u64>, p: nat)
    requires
        ascending(before),
        ascending(after),
        sample_inserted(before, d, after),
        1 <= p <= 100,
    ensures
        d >= percentile(before, p) ==> percentile(after, p) >= percentile(before, p),
        d <= percentile(before, p) ==> percentile(after, p) <= percentile(before, p),
{
    let pos = choose|pos: int| #[trigger] sample_inserted_at(before, d, after, pos);
    let n = before.len();
    if n == 0 {
        lemma_nearest_rank_bounds(p, 1);
        assert(after.len() == 1);
        assert(after[0] == d);
    } else {
        lemma_nearest_rank_bounds(p, n);
        lemma_nearest_rank_bounds(p, n + 1);
        lemma_rank_step(p, n);
        let r = nearest_rank(p, n) as int;
        let r2 = nearest_rank(p, n + 1) as int;
        assert(after.len() == n + 1);
        assert(forall|k: int| 0 <= k < pos ==> after[k] == before[k]);
        assert(after[pos] == d);
        assert(forall|k: int| pos < k <= n ==> after[k] == before[k - 1]);
        if pos > 0 {
            assert(before[pos - 1] == after[pos - 1]);
        }
        if pos < n {
            assert(before[pos] == after[pos + 1]);
        }
        if d >= before[r - 1] {
            assert(after[r2 - 1] >= after[r - 1]);
            if r - 1 > pos {
                assert(after[pos + 1] == before[pos]);
                assert(before[pos] <= before[r - 2]);
                assert(after[r - 1] == before[r - 2]);
            }
        }
        if d <= before[r - 1] {
            if r2 == r {
                if r - 1 > pos {
                    assert(after[r - 1] == before[r - 2]);
                }
            } else {
                if r < pos {
                    assert(after[pos - 1] == before[pos - 1]);
                    assert(before[r] <= before[pos - 1]);
                    assert(after[r] == before[r]);
                } else if r > pos {
                    assert(after[r] == before[r - 1]);
                }
            }
        }
    }
}

/// Over any run of calls from fresh metrics: the query counter equals the
/// number of `record_query` calls, the error counter the number of
/// `record_error` calls, there is one sample per recorded query, and the pool
/// gauges hold the latest `update_pool_stats` values (zero before any).
pub proof fn law_metrics_count_calls(states: Seq<MetricsView>, calls: Seq<MetricsCall>)
    requires
        states.len() == calls.len() + 1,
        states[0] == initial_metrics(),
        forall|i: int|
            0 <= i < calls.len() ==> metrics_step(states[i], #[trigger] calls[i], states[i + 1]),
        query_calls(calls) <= u64::MAX,
        error_calls(calls) <= u64::MAX,
    ensures
        states.last().queries_total == query_calls(calls),
        states.last().errors_total == error_calls(calls),
        states.last().durations_ms.len() == query_calls(calls),
        states.last().pool_connections_active == latest_pool_stats(calls).0,
        states.last().pool_connections_idle == latest_pool_stats(calls).1,
    decreases calls.len(),
{
    if calls.len() > 0 {
        let c = calls.drop_last();
        let st = states.drop_last();
        assert forall|i: int| 0 <= i < c.len() implies metrics_step(
            st[i],
            #[trigger] c[i],
            st[i + 1],
        ) by {
            assert(c[i] == calls[i]);
            assert(metrics_step(states[i], calls[i], states[i + 1]));
        }
        assert(query_calls(c) <= query_calls(calls));
        assert(error_calls(c) <= error_calls(calls));
        law_metrics_count_calls(st, c);
        let k = calls.len() - 1;
        assert(metrics_step(states[k], calls[k], states[k + 1]));
        assert(st.last() == states[k]);
        if let MetricsCall::RecordQuery(d) = calls[k] {
            let pos = choose|pos: int| #[trigger] sample_inserted_at(
                states[k].durations_ms,
                d,
                states[k + 1].durations_ms,
                pos,
            );
        }
    }
}

/// Every reported percentile of a non-empty set of samples is one of the
/// samples, and lies between the smallest and the largest of them.
pub proof fn law_percentile_is_a_sample(samples: Seq<u64>, p: nat)
    requires
        ascending(samples),
        samples.len() > 0,
        1 <= p <= 100,
    ensures
        samples.contains(percentile(samples, p)),
        samples[0] <= percentile(samples, p) <= samples.last(),
{
    lemma_nearest_rank_bounds(p, samples.len());
    let i = nearest_rank(p, samples.len()) - 1;
    assert(samples[i] == percentile(samples, p));
}

} // verus!
