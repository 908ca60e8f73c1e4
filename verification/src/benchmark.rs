//! Benchmarks: what is measured, whether it can be, and how two measurements compare.
use vstd::prelude::*;

use crate::json::{
    bool_json, json_bool, json_list, json_member, json_object, json_optional, json_quoted,
    json_quoted_of, list_json, object_json, optional_json, push_member,
};
use crate::order::{sorted, sorted_texts};
use crate::text::{
    blank, chars_of, decimal, find_char, find_last_part, find_part, first_place, index_of, is_blank,
    join2, join3, join5, join_all, joined, last_place, lemma_first_place, lemma_index_of,
    lemma_last_place, lines, lines_of, opt_text, parse_unsigned, read_unsigned, same_text,
    shown_text, shown_text_of, string_of_range, strip_prefix, texts, trim, trimmed, u64_text, words,
    words_of,
};

verus! {

/// What is measured.
#[derive(Clone, Copy, Debug, PartialEq, Eq, Structural)]
pub enum BenchmarkComparison {
    DirectPostgreSQL,
    PgBouncer,
    PgDog,
    PgKinetic,
}

impl BenchmarkComparison {
    /// The name under which the value is written.
    pub open spec fn name(self) -> Seq<char> {
        match self {
            BenchmarkComparison::DirectPostgreSQL => "direct-postgresql"@,
            BenchmarkComparison::PgBouncer => "pgbouncer"@,
            BenchmarkComparison::PgDog => "pgdog"@,
            BenchmarkComparison::PgKinetic => "pg-kinetic"@,
        }
    }

    /// The name under which the value is written.
    pub fn as_str(self) -> (r: &'static str)
        ensures
            r@ == self.name(),
    {
        match self {
            BenchmarkComparison::DirectPostgreSQL => "direct-postgresql",
            BenchmarkComparison::PgBouncer => "pgbouncer",
            BenchmarkComparison::PgDog => "pgdog",
            BenchmarkComparison::PgKinetic => "pg-kinetic",
        }
    }

    /// What each value is written as.
    pub proof fn law_written_as(self)
        ensures
            self is DirectPostgreSQL ==> self.name() == "direct-postgresql"@,
            self is PgBouncer ==> self.name() == "pgbouncer"@,
            self is PgDog ==> self.name() == "pgdog"@,
            self is PgKinetic ==> self.name() == "pg-kinetic"@,
    {
    }

    /// No two values have the same name.
    pub proof fn law_names_differ(a: BenchmarkComparison, b: BenchmarkComparison)
        requires
            a.name() == b.name(),
        ensures
            a == b,
    {
        reveal_strlit("direct-postgresql");
        reveal_strlit("pgbouncer");
        reveal_strlit("pgdog");
        reveal_strlit("pg-kinetic");
        assert("direct-postgresql"@.len() == 17);
        assert("pgbouncer"@.len() == 9);
        assert("pgdog"@.len() == 5);
        assert("pg-kinetic"@.len() == 10);
    }
}

/// Whether a target can be reached.
#[derive(Clone, Copy, Debug, PartialEq, Eq, Structural)]
pub enum BenchmarkTargetAvailability {
    Ready,
    Unavailable,
}

impl BenchmarkTargetAvailability {
    /// The name under which the value is written.
    pub open spec fn name(self) -> Seq<char> {
        match self {
            BenchmarkTargetAvailability::Ready => "ready"@,
            BenchmarkTargetAvailability::Unavailable => "unavailable"@,
        }
    }

    /// The name under which the value is written.
    pub fn as_str(self) -> (r: &'static str)
        ensures
            r@ == self.name(),
    {
        match self {
            BenchmarkTargetAvailability::Ready => "ready",
            BenchmarkTargetAvailability::Unavailable => "unavailable",
        }
    }

    /// What each value is written as.
    pub proof fn law_written_as(self)
        ensures
            self is Ready ==> self.name() == "ready"@,
            self is Unavailable ==> self.name() == "unavailable"@,
    {
    }

    /// No two values have the same name.
    pub proof fn law_names_differ(a: BenchmarkTargetAvailability, b: BenchmarkTargetAvailability)
        requires
            a.name() == b.name(),
        ensures
            a == b,
    {
        reveal_strlit("ready");
        reveal_strlit("unavailable");
        assert("ready"@.len() == 5);
        assert("unavailable"@.len() == 11);
    }
}

/// What follows for a target.
#[derive(Clone, Copy, Debug, PartialEq, Eq, Structural)]
pub enum BenchmarkTargetOutcome {
    Ready,
    SkippedOptional,
    FailedRequired,
}

impl BenchmarkTargetOutcome {
    /// The name under which the value is written.
    pub open spec fn name(self) -> Seq<char> {
        match self {
            BenchmarkTargetOutcome::Ready => "ready"@,
            BenchmarkTargetOutcome::SkippedOptional => "skipped_optional"@,
            BenchmarkTargetOutcome::FailedRequired => "failed_required"@,
        }
    }

    /// The name under which the value is written.
    pub fn as_str(self) -> (r: &'static str)
        ensures
            r@ == self.name(),
    {
        match self {
            BenchmarkTargetOutcome::Ready => "ready",
            BenchmarkTargetOutcome::SkippedOptional => "skipped_optional",
            BenchmarkTargetOutcome::FailedRequired => "failed_required",
        }
    }

    /// What each value is written as.
    pub proof fn law_written_as(self)
        ensures
            self is Ready ==> self.name() == "ready"@,
            self is SkippedOptional ==> self.name() == "skipped_optional"@,
            self is FailedRequired ==> self.name() == "failed_required"@,
    {
    }

    /// No two values have the same name.
    pub proof fn law_names_differ(a: BenchmarkTargetOutcome, b: BenchmarkTargetOutcome)
        requires
            a.name() == b.name(),
        ensures
            a == b,
    {
        reveal_strlit("ready");
        reveal_strlit("skipped_optional");
        reveal_strlit("failed_required");
        assert("ready"@.len() == 5);
        assert("skipped_optional"@.len() == 16);
        assert("failed_required"@.len() == 15);
    }
}

/// What follows for the whole benchmark.
#[derive(Clone, Copy, Debug, PartialEq, Eq, Structural)]
pub enum BenchmarkTargetReportOutcome {
    Ready,
    Partial,
    FailedRequired,
}

impl BenchmarkTargetReportOutcome {
    /// The name under which the value is written.
    pub open spec fn name(self) -> Seq<char> {
        match self {
            BenchmarkTargetReportOutcome::Ready => "ready"@,
            BenchmarkTargetReportOutcome::Partial => "partial"@,
            BenchmarkTargetReportOutcome::FailedRequired => "failed_required"@,
        }
    }

    /// The name under which the value is written.
    pub fn as_str(self) -> (r: &'static str)
        ensures
            r@ == self.name(),
    {
        match self {
            BenchmarkTargetReportOutcome::Ready => "ready",
            BenchmarkTargetReportOutcome::Partial => "partial",
            BenchmarkTargetReportOutcome::FailedRequired => "failed_required",
        }
    }

    /// What each value is written as.
    pub proof fn law_written_as(self)
        ensures
            self is Ready ==> self.name() == "ready"@,
            self is Partial ==> self.name() == "partial"@,
            self is FailedRequired ==> self.name() == "failed_required"@,
    {
    }

    /// No two values have the same name.
    pub proof fn law_names_differ(a: BenchmarkTargetReportOutcome, b: BenchmarkTargetReportOutcome)
        requires
            a.name() == b.name(),
        ensures
            a == b,
    {
        reveal_strlit("ready");
        reveal_strlit("partial");
        reveal_strlit("failed_required");
        assert("ready"@.len() == 5);
        assert("partial"@.len() == 7);
        assert("failed_required"@.len() == 15);
    }
}

/// How two measurements compare.
#[derive(Clone, Copy, Debug, PartialEq, Eq, Structural)]
pub enum BenchmarkReportOutcome {
    Passed,
    Warning,
    Failed,
}

impl BenchmarkReportOutcome {
    /// The name under which the value is written.
    pub open spec fn name(self) -> Seq<char> {
        match self {
            BenchmarkReportOutcome::Passed => "passed"@,
            BenchmarkReportOutcome::Warning => "warning"@,
            BenchmarkReportOutcome::Failed => "failed"@,
        }
    }

    /// The name under which the value is written.
    pub fn as_str(self) -> (r: &'static str)
        ensures
            r@ == self.name(),
    {
        match self {
            BenchmarkReportOutcome::Passed => "passed",
            BenchmarkReportOutcome::Warning => "warning",
            BenchmarkReportOutcome::Failed => "failed",
        }
    }

    /// What each value is written as.
    pub proof fn law_written_as(self)
        ensures
            self is Passed ==> self.name() == "passed"@,
            self is Warning ==> self.name() == "warning"@,
            self is Failed ==> self.name() == "failed"@,
    {
    }

    /// No two values have the same name.
    pub proof fn law_names_differ(a: BenchmarkReportOutcome, b: BenchmarkReportOutcome)
        requires
            a.name() == b.name(),
        ensures
            a == b,
    {
        reveal_strlit("passed");
        reveal_strlit("warning");
        reveal_strlit("failed");
        assert("passed"@.len() == 6 && "passed"@[0] == 'p');
        assert("warning"@.len() == 7 && "warning"@[0] == 'w');
        assert("failed"@.len() == 6 && "failed"@[0] == 'f');
    }
}

/// How a value keeps to what is allowed.
#[derive(Clone, Copy, Debug, PartialEq, Eq, Structural)]
pub enum PerformanceBudgetOutcome {
    Passed,
    Warning,
    Failed,
}

impl PerformanceBudgetOutcome {
    /// The name under which the value is written.
    pub open spec fn name(self) -> Seq<char> {
        match self {
            PerformanceBudgetOutcome::Passed => "passed"@,
            PerformanceBudgetOutcome::Warning => "warning"@,
            PerformanceBudgetOutcome::Failed => "failed"@,
        }
    }

    /// The name under which the value is written.
    pub fn as_str(self) -> (r: &'static str)
        ensures
            r@ == self.name(),
    {
        match self {
            PerformanceBudgetOutcome::Passed => "passed",
            PerformanceBudgetOutcome::Warning => "warning",
            PerformanceBudgetOutcome::Failed => "failed",
        }
    }

    /// What each value is written as.
    pub proof fn law_written_as(self)
        ensures
            self is Passed ==> self.name() == "passed"@,
            self is Warning ==> self.name() == "warning"@,
            self is Failed ==> self.name() == "failed"@,
    {
    }

    /// No two values have the same name.
    pub proof fn law_names_differ(a: PerformanceBudgetOutcome, b: PerformanceBudgetOutcome)
        requires
            a.name() == b.name(),
        ensures
            a == b,
    {
        reveal_strlit("passed");
        reveal_strlit("warning");
        reveal_strlit("failed");
        assert("passed"@.len() == 6 && "passed"@[0] == 'p');
        assert("warning"@.len() == 7 && "warning"@[0] == 'w');
        assert("failed"@.len() == 6 && "failed"@[0] == 'f');
    }
}

/// What is compared.
#[derive(Clone, Copy, Debug, PartialEq, Eq, Structural)]
pub enum PerformanceMetric {
    LatencyP50,
    LatencyP95,
    LatencyP99,
    LatencyP999,
    Throughput,
    ErrorRate,
    CpuPerQuery,
    MemoryPerClient,
}

impl PerformanceMetric {
    /// The name under which the value is written.
    pub open spec fn name(self) -> Seq<char> {
        match self {
            PerformanceMetric::LatencyP50 => "latency_p50"@,
            PerformanceMetric::LatencyP95 => "latency_p95"@,
            PerformanceMetric::LatencyP99 => "latency_p99"@,
            PerformanceMetric::LatencyP999 => "latency_p999"@,
            PerformanceMetric::Throughput => "throughput"@,
            PerformanceMetric::ErrorRate => "error_rate"@,
            PerformanceMetric::CpuPerQuery => "cpu_per_query"@,
            PerformanceMetric::MemoryPerClient => "memory_per_client"@,
        }
    }

    /// The name under which the value is written.
    pub fn as_str(self) -> (r: &'static str)
        ensures
            r@ == self.name(),
    {
        match self {
            PerformanceMetric::LatencyP50 => "latency_p50",
            PerformanceMetric::LatencyP95 => "latency_p95",
            PerformanceMetric::LatencyP99 => "latency_p99",
            PerformanceMetric::LatencyP999 => "latency_p999",
            PerformanceMetric::Throughput => "throughput",
            PerformanceMetric::ErrorRate => "error_rate",
            PerformanceMetric::CpuPerQuery => "cpu_per_query",
            PerformanceMetric::MemoryPerClient => "memory_per_client",
        }
    }

    /// What each value is written as.
    pub proof fn law_written_as(self)
        ensures
            self is LatencyP50 ==> self.name() == "latency_p50"@,
            self is LatencyP95 ==> self.name() == "latency_p95"@,
            self is LatencyP99 ==> self.name() == "latency_p99"@,
            self is LatencyP999 ==> self.name() == "latency_p999"@,
            self is Throughput ==> self.name() == "throughput"@,
            self is ErrorRate ==> self.name() == "error_rate"@,
            self is CpuPerQuery ==> self.name() == "cpu_per_query"@,
            self is MemoryPerClient ==> self.name() == "memory_per_client"@,
    {
    }

    /// No two values have the same name.
    pub proof fn law_names_differ(a: PerformanceMetric, b: PerformanceMetric)
        requires
            a.name() == b.name(),
        ensures
            a == b,
    {
        reveal_strlit("latency_p50");
        reveal_strlit("latency_p95");
        reveal_strlit("latency_p99");
        reveal_strlit("latency_p999");
        reveal_strlit("throughput");
        reveal_strlit("error_rate");
        reveal_strlit("cpu_per_query");
        reveal_strlit("memory_per_client");
        assert("latency_p50"@.len() == 11 && "latency_p50"@[9] == '5' && "latency_p50"@[10] == '0');
        assert("latency_p95"@.len() == 11 && "latency_p95"@[9] == '9' && "latency_p95"@[10] == '5');
        assert("latency_p99"@.len() == 11 && "latency_p99"@[9] == '9' && "latency_p99"@[10] == '9');
        assert("latency_p999"@.len() == 12 && "latency_p999"@[9] == '9' && "latency_p999"@[10] == '9');
        assert("throughput"@.len() == 10 && "throughput"@[9] == 't');
        assert("error_rate"@.len() == 10 && "error_rate"@[9] == 'e');
        assert("cpu_per_query"@.len() == 13 && "cpu_per_query"@[9] == 'u' && "cpu_per_query"@[10] == 'e');
        assert("memory_per_client"@.len() == 17 && "memory_per_client"@[9] == 'r' && "memory_per_client"@[10] == '_');
    }
}

/// What a measurement is of.
#[derive(Clone, Copy, Debug, PartialEq, Eq, Structural)]
pub enum PerformanceBenchmarkTarget {
    DirectPostgres,
    PgBouncer,
    PgDog,
    PgKinetic,
}

impl PerformanceBenchmarkTarget {
    /// The name under which the value is written.
    pub open spec fn name(self) -> Seq<char> {
        match self {
            PerformanceBenchmarkTarget::DirectPostgres => "direct-postgres"@,
            PerformanceBenchmarkTarget::PgBouncer => "pgbouncer"@,
            PerformanceBenchmarkTarget::PgDog => "pgdog"@,
            PerformanceBenchmarkTarget::PgKinetic => "pg-kinetic"@,
        }
    }

    /// The name under which the value is written.
    pub fn as_str(self) -> (r: &'static str)
        ensures
            r@ == self.name(),
    {
        match self {
            PerformanceBenchmarkTarget::DirectPostgres => "direct-postgres",
            PerformanceBenchmarkTarget::PgBouncer => "pgbouncer",
            PerformanceBenchmarkTarget::PgDog => "pgdog",
            PerformanceBenchmarkTarget::PgKinetic => "pg-kinetic",
        }
    }

    /// What each value is written as.
    pub proof fn law_written_as(self)
        ensures
            self is DirectPostgres ==> self.name() == "direct-postgres"@,
            self is PgBouncer ==> self.name() == "pgbouncer"@,
            self is PgDog ==> self.name() == "pgdog"@,
            self is PgKinetic ==> self.name() == "pg-kinetic"@,
    {
    }

    /// No two values have the same name.
    pub proof fn law_names_differ(a: PerformanceBenchmarkTarget, b: PerformanceBenchmarkTarget)
        requires
            a.name() == b.name(),
        ensures
            a == b,
    {
        reveal_strlit("direct-postgres");
        reveal_strlit("pgbouncer");
        reveal_strlit("pgdog");
        reveal_strlit("pg-kinetic");
        assert("direct-postgres"@.len() == 15);
        assert("pgbouncer"@.len() == 9);
        assert("pgdog"@.len() == 5);
        assert("pg-kinetic"@.len() == 10);
    }
}

/// How much could be learnt of the process.
#[derive(Clone, Copy, Debug, PartialEq, Eq, Structural)]
pub enum ProcessMetricCollectionStatus {
    Complete,
    Partial,
    Unavailable,
}

impl ProcessMetricCollectionStatus {
    /// The name under which the value is written.
    pub open spec fn name(self) -> Seq<char> {
        match self {
            ProcessMetricCollectionStatus::Complete => "complete"@,
            ProcessMetricCollectionStatus::Partial => "partial"@,
            ProcessMetricCollectionStatus::Unavailable => "unavailable"@,
        }
    }

    /// The name under which the value is written.
    pub fn as_str(self) -> (r: &'static str)
        ensures
            r@ == self.name(),
    {
        match self {
            ProcessMetricCollectionStatus::Complete => "complete",
            ProcessMetricCollectionStatus::Partial => "partial",
            ProcessMetricCollectionStatus::Unavailable => "unavailable",
        }
    }

    /// What each value is written as.
    pub proof fn law_written_as(self)
        ensures
            self is Complete ==> self.name() == "complete"@,
            self is Partial ==> self.name() == "partial"@,
            self is Unavailable ==> self.name() == "unavailable"@,
    {
    }

    /// No two values have the same name.
    pub proof fn law_names_differ(
        a: ProcessMetricCollectionStatus,
        b: ProcessMetricCollectionStatus,
    )
        requires
            a.name() == b.name(),
        ensures
            a == b,
    {
        reveal_strlit("complete");
        reveal_strlit("partial");
        reveal_strlit("unavailable");
        assert("complete"@.len() == 8);
        assert("partial"@.len() == 7);
        assert("unavailable"@.len() == 11);
    }
}


// ---------------------------------------------------------------------------
// The process
// ---------------------------------------------------------------------------

/// How much was learnt, where some of a number of things are unknown.
pub open spec fn collection_status(unknown: nat, total: nat) -> ProcessMetricCollectionStatus {
    if unknown == 0 {
        ProcessMetricCollectionStatus::Complete
    } else if unknown == total {
        ProcessMetricCollectionStatus::Unavailable
    } else {
        ProcessMetricCollectionStatus::Partial
    }
}

/// How much was learnt of the process: its time, its memory and its open files.
pub fn process_metric_status(cpu_known: bool, memory_known: bool, files_known: bool) -> (r:
    ProcessMetricCollectionStatus)
    ensures
        r == collection_status(
            ((if cpu_known { 0int } else { 1 }) + (if memory_known { 0int } else { 1 }) + (
            if files_known { 0int } else { 1 })) as nat,
            3,
        ),
{
    if cpu_known && memory_known && files_known {
        ProcessMetricCollectionStatus::Complete
    } else if !cpu_known && !memory_known && !files_known {
        ProcessMetricCollectionStatus::Unavailable
    } else {
        ProcessMetricCollectionStatus::Partial
    }
}

/// What was learnt of the process, and how much of it. The sample is JSON text.
#[derive(Clone, Debug)]
pub struct ProcessMetricCollection {
    status: ProcessMetricCollectionStatus,
    sample: String,
}

impl ProcessMetricCollection {
    /// How much was learnt.
    pub closed spec fn extent(self) -> ProcessMetricCollectionStatus {
        self.status
    }

    /// What was learnt.
    pub closed spec fn told(self) -> Seq<char> {
        self.sample@
    }

    /// What was learnt of the process's time, its memory and its open files.
    pub fn new(cpu_known: bool, memory_known: bool, files_known: bool, sample: String) -> (r:
        ProcessMetricCollection)
        ensures
            r.extent() == collection_status(
                ((if cpu_known { 0int } else { 1 }) + (if memory_known { 0int } else { 1 }) + (
                if files_known { 0int } else { 1 })) as nat,
                3,
            ),
            r.told() == sample@,
    {
        ProcessMetricCollection {
            status: process_metric_status(cpu_known, memory_known, files_known),
            sample,
        }
    }

    /// How much was learnt.
    pub fn status(&self) -> (r: ProcessMetricCollectionStatus)
        ensures
            r == self.extent(),
    {
        self.status
    }

    /// What was learnt.
    pub fn sample(&self) -> (r: &str)
        ensures
            r@ == self.told(),
    {
        self.sample.as_str()
    }
}

/// The bytes of some kibibytes, where they can be counted.
pub fn resident_memory_bytes(kibibytes: u64) -> (r: Option<u64>)
    ensures
        r == if kibibytes * 1024 <= u64::MAX {
            Some((kibibytes * 1024) as u64)
        } else {
            None
        },
{
    kibibytes.checked_mul(1024)
}

/// A word of a line as a number, where there is one.
pub open spec fn number_at(list: Seq<Seq<char>>, i: int) -> Option<nat> {
    if 0 <= i < list.len() {
        match read_unsigned(list[i], u64::MAX as nat) {
            Ok(n) => Some(n),
            Err(_) => None,
        }
    } else {
        None
    }
}

fn number_word(list: &Vec<String>, i: usize) -> (r: Option<u64>)
    ensures
        match r {
            Some(n) => number_at(texts(list@), i as int) == Some(n as nat),
            None => number_at(texts(list@), i as int) is None,
        },
{
    if i >= list.len() {
        return None;
    }
    assert(texts(list@)[i as int] == list@[i as int]@);
    match parse_unsigned(list[i].as_str(), u64::MAX) {
        Ok(n) => Some(n),
        Err(_) => None,
    }
}

/// The memory that a process reports to hold, in kibibytes: the first number behind `VmRSS:` on
/// the first line that has one.
pub open spec fn reported_memory(list: Seq<Seq<char>>) -> Option<nat>
    decreases list.len(),
{
    if list.len() == 0 {
        None
    } else {
        match line_memory(list[0]) {
            Some(n) => Some(n),
            None => reported_memory(list.skip(1)),
        }
    }
}

/// The memory that one line reports.
pub open spec fn line_memory(line: Seq<char>) -> Option<nat> {
    if crate::text::has_prefix(line, "VmRSS:"@) {
        number_at(words_of(line.skip("VmRSS:"@.len() as int)), 0)
    } else {
        None
    }
}

/// The memory that a process reports to hold, in kibibytes.
pub fn proc_status_memory(contents: &str) -> (r: Option<u64>)
    ensures
        match r {
            Some(n) => reported_memory(lines_of(contents@)) == Some(n as nat),
            None => reported_memory(lines_of(contents@)) is None,
        },
{
    let list = lines(contents);
    let ghost all = texts(list@);
    let mut i: usize = 0;
    assert(all.skip(0) =~= all);
    while i < list.len()
        invariant
            i <= list@.len(),
            all == texts(list@),
            all == lines_of(contents@),
            reported_memory(all) == reported_memory(all.skip(i as int)),
        decreases list@.len() - i,
    {
        assert(all.skip(i as int)[0] == list@[i as int]@);
        match strip_prefix(list[i].as_str(), "VmRSS:") {
            Some(rest) => {
                let found = words(rest.as_str());
                match number_word(&found, 0) {
                    Some(n) => {
                        return Some(n);
                    },
                    None => {},
                }
            },
            None => {},
        }
        assert(all.skip(i as int).skip(1) =~= all.skip(i + 1));
        i += 1;
    }
    None
}

/// The clock ticks that a process has used, by itself and in the system: the twelfth and the
/// thirteenth word behind the last closing bracket.
pub open spec fn cpu_ticks(contents: Seq<char>) -> Option<nat> {
    match last_place(contents, ") "@, contents.len() as int) {
        None => None,
        Some(at) => {
            let list = words_of(contents.skip(at + 2));
            match (number_at(list, 11), number_at(list, 12)) {
                (Some(user), Some(system)) => if user + system <= u64::MAX {
                    Some(user + system)
                } else {
                    None
                },
                _ => None,
            }
        },
    }
}

/// The clock ticks that a process has used.
pub fn proc_stat_cpu_ticks(contents: &str) -> (r: Option<u64>)
    ensures
        match r {
            Some(n) => cpu_ticks(contents@) == Some(n as nat),
            None => cpu_ticks(contents@) is None,
        },
{
    let chars = chars_of(contents);
    let mark = chars_of(") ");
    proof {
        reveal_strlit(") ");
        lemma_last_place(contents@, ") "@, contents@.len() as int);
    }
    let at: usize = match find_last_part(&chars, &mark) {
        Some(at) => at,
        None => {
            return None;
        },
    };
    let length: usize = chars.len();
    let rest = string_of_range(&chars, at + 2, length);
    assert(rest@ =~= contents@.skip(at + 2));
    let list = words(rest.as_str());
    let user: u64 = match number_word(&list, 11) {
        Some(n) => n,
        None => {
            return None;
        },
    };
    let system: u64 = match number_word(&list, 12) {
        Some(n) => n,
        None => {
            return None;
        },
    };
    user.checked_add(system)
}

// ---------------------------------------------------------------------------
// Scenarios
// ---------------------------------------------------------------------------

/// A target as a document names it.
#[derive(Clone, Debug)]
pub struct BenchmarkTargetDocument {
    pub label: String,
    pub comparison: String,
    pub dsn: String,
}

/// How a scenario connects.
#[derive(Clone, Copy, Debug, PartialEq, Eq, Structural)]
pub struct BenchmarkConnectionProfile {
    pub concurrency: u32,
    pub connection_count: u32,
}

/// What a scenario switches on.
#[derive(Clone, Copy, Debug, PartialEq, Eq, Structural)]
pub struct BenchmarkFeatureToggleSet {
    pub read_routing: bool,
    pub sharding: bool,
    pub policy_overhead: bool,
}

/// What a scenario measures.
#[derive(Clone, Copy, Debug, PartialEq, Eq, Structural)]
pub struct BenchmarkExpectedMetricSet {
    pub latency: bool,
    pub throughput: bool,
    pub cpu: bool,
    pub memory: bool,
    pub error_rate: bool,
}

/// A scenario as a document gives it.
#[derive(Clone, Debug)]
pub struct BenchmarkScenarioDocument {
    pub name: String,
    pub driver: String,
    pub duration_ms: u64,
    pub workload: String,
    pub warmup: Option<u64>,
    pub warmup_ms: Option<u64>,
    pub target_matrix: Option<Vec<BenchmarkTargetDocument>>,
    pub connections: Option<BenchmarkConnectionProfile>,
    pub features: Option<BenchmarkFeatureToggleSet>,
    pub expected_metrics: Option<BenchmarkExpectedMetricSet>,
}

/// The driver of a document that names none.
pub fn default_benchmark_driver() -> (r: String)
    ensures
        r@ == "pgbench"@,
{
    "pgbench".to_owned()
}

/// How long a scenario runs whose document does not say.
pub fn default_duration_ms() -> (r: u64)
    ensures
        r == 60_000,
{
    60_000
}

/// How long a scenario warms up whose document does not say.
pub fn default_warmup_ms() -> (r: u64)
    ensures
        r == 5_000,
{
    5_000
}

/// The names that documents may use, and what holds where they say nothing.
#[derive(Clone, Debug)]
pub struct BenchmarkVocabulary {
    pub drivers: Vec<String>,
    pub workloads: Vec<String>,
    pub default_workload: String,
    pub default_connections: BenchmarkConnectionProfile,
    pub default_expected_metrics: BenchmarkExpectedMetricSet,
}

/// What was found of a target: what is wrong with it, and how it is shown.
#[derive(Clone, Debug)]
pub struct TargetCheck {
    pub refusal: Option<String>,
    pub redacted_dsn: String,
    pub metric_label: String,
}

/// What was found of the parts of a scenario: what is wrong with each, if anything is.
#[derive(Clone, Debug)]
pub struct ScenarioChecks {
    pub targets: Vec<TargetCheck>,
    pub connections: Option<String>,
    pub expected_metrics: Option<String>,
    pub warmup: Option<String>,
    pub matrix: Option<String>,
    pub scenario: Option<String>,
}

/// Why a scenario is refused.
#[derive(Clone, Debug, PartialEq, Eq)]
pub enum BenchmarkValidationError {
    InvalidScenarioDocument { message: String },
    MissingTargetMatrix,
    UnsupportedComparisonLabel { label: String },
    UnsupportedDriverLabel { label: String },
    UnsupportedWorkloadLabel { label: String },
    InvalidPart { message: String },
}

/// Why a scenario is refused, as plain values.
pub enum ScenarioComplaint {
    InvalidScenarioDocument { message: Seq<char> },
    MissingTargetMatrix,
    UnsupportedComparisonLabel { label: Seq<char> },
    UnsupportedDriverLabel { label: Seq<char> },
    UnsupportedWorkloadLabel { label: Seq<char> },
    InvalidPart { message: Seq<char> },
}

impl View for BenchmarkValidationError {
    type V = ScenarioComplaint;

    open spec fn view(&self) -> ScenarioComplaint {
        match *self {
            BenchmarkValidationError::InvalidScenarioDocument { message } =>
                ScenarioComplaint::InvalidScenarioDocument { message: message@ },
            BenchmarkValidationError::MissingTargetMatrix => ScenarioComplaint::MissingTargetMatrix,
            BenchmarkValidationError::UnsupportedComparisonLabel { label } =>
                ScenarioComplaint::UnsupportedComparisonLabel { label: label@ },
            BenchmarkValidationError::UnsupportedDriverLabel { label } =>
                ScenarioComplaint::UnsupportedDriverLabel { label: label@ },
            BenchmarkValidationError::UnsupportedWorkloadLabel { label } =>
                ScenarioComplaint::UnsupportedWorkloadLabel { label: label@ },
            BenchmarkValidationError::InvalidPart { message } => ScenarioComplaint::InvalidPart {
                message: message@,
            },
        }
    }
}

/// A target of a scenario.
#[derive(Clone, Debug)]
pub struct BenchmarkTarget {
    pub label: String,
    pub comparison: BenchmarkComparison,
    pub dsn: String,
    pub redacted_dsn: String,
    pub metric_label: String,
}

/// A target of a scenario, as plain values.
pub struct TargetFacts {
    pub label: Seq<char>,
    pub comparison: BenchmarkComparison,
    pub dsn: Seq<char>,
    pub redacted_dsn: Seq<char>,
    pub metric_label: Seq<char>,
}

impl View for BenchmarkTarget {
    type V = TargetFacts;

    open spec fn view(&self) -> TargetFacts {
        TargetFacts {
            label: self.label@,
            comparison: self.comparison,
            dsn: self.dsn@,
            redacted_dsn: self.redacted_dsn@,
            metric_label: self.metric_label@,
        }
    }
}

/// Targets as plain values.
pub open spec fn target_facts(targets: Seq<BenchmarkTarget>) -> Seq<TargetFacts> {
    targets.map_values(|target: BenchmarkTarget| target@)
}

/// A scenario.
#[derive(Clone, Debug)]
pub struct BenchmarkScenario {
    pub name: String,
    pub metric_label: String,
    pub driver: String,
    pub workload: String,
    pub duration_ms: u64,
    pub warmup_ms: u64,
    pub targets: Vec<BenchmarkTarget>,
    pub connections: BenchmarkConnectionProfile,
    pub features: BenchmarkFeatureToggleSet,
    pub expected_metrics: BenchmarkExpectedMetricSet,
}

/// What a comparison's name stands for.
pub open spec fn comparison_named(label: Seq<char>) -> Option<BenchmarkComparison> {
    if label == "direct-postgresql"@ {
        Some(BenchmarkComparison::DirectPostgreSQL)
    } else if label == "pgbouncer"@ {
        Some(BenchmarkComparison::PgBouncer)
    } else if label == "pgdog"@ {
        Some(BenchmarkComparison::PgDog)
    } else if label == "pg-kinetic"@ {
        Some(BenchmarkComparison::PgKinetic)
    } else {
        None
    }
}

/// Every comparison is found by its own name.
pub proof fn law_comparison_found_by_name(comparison: BenchmarkComparison)
    ensures
        comparison_named(comparison.name()) == Some(comparison),
{
    reveal_strlit("direct-postgresql");
    reveal_strlit("pgbouncer");
    reveal_strlit("pgdog");
    reveal_strlit("pg-kinetic");
    assert("direct-postgresql"@.len() == 17);
    assert("pgbouncer"@.len() == 9);
    assert("pgdog"@.len() == 5);
    assert("pg-kinetic"@.len() == 10);
}

/// What a comparison's name stands for.
pub fn parse_comparison(value: &str) -> (r: Option<BenchmarkComparison>)
    ensures
        r == comparison_named(value@),
{
    if same_text(value, "direct-postgresql") {
        Some(BenchmarkComparison::DirectPostgreSQL)
    } else if same_text(value, "pgbouncer") {
        Some(BenchmarkComparison::PgBouncer)
    } else if same_text(value, "pgdog") {
        Some(BenchmarkComparison::PgDog)
    } else if same_text(value, "pg-kinetic") {
        Some(BenchmarkComparison::PgKinetic)
    } else {
        None
    }
}

/// The first of some targets that is refused, and why.
pub open spec fn targets_complaint(
    documents: Seq<BenchmarkTargetDocument>,
    checks: Seq<TargetCheck>,
) -> Option<ScenarioComplaint>
    decreases documents.len(),
{
    if documents.len() == 0 {
        None
    } else {
        let k = documents.len() - 1;
        let earlier = targets_complaint(documents.drop_last(), checks);
        if earlier is Some {
            earlier
        } else if comparison_named(documents[k].comparison@) is None {
            Some(
                ScenarioComplaint::UnsupportedComparisonLabel { label: documents[k].comparison@ },
            )
        } else if checks[k].refusal is Some {
            Some(ScenarioComplaint::InvalidPart { message: checks[k].refusal->0@ })
        } else {
            None
        }
    }
}

proof fn lemma_targets_complaint_stays(
    documents: Seq<BenchmarkTargetDocument>,
    checks: Seq<TargetCheck>,
    k: int,
)
    requires
        0 <= k <= documents.len(),
        targets_complaint(documents.take(k), checks) is Some,
    ensures
        targets_complaint(documents, checks) == targets_complaint(documents.take(k), checks),
    decreases documents.len() - k,
{
    if k < documents.len() {
        assert(documents.take(k + 1).drop_last() =~= documents.take(k));
        lemma_targets_complaint_stays(documents, checks, k + 1);
    } else {
        assert(documents.take(k) =~= documents);
    }
}

/// A target of a document that is not refused.
pub open spec fn checked_target(
    document: BenchmarkTargetDocument,
    check: TargetCheck,
) -> TargetFacts {
    TargetFacts {
        label: document.label@,
        comparison: comparison_named(document.comparison@)->0,
        dsn: document.dsn@,
        redacted_dsn: check.redacted_dsn@,
        metric_label: check.metric_label@,
    }
}

fn check_targets(documents: &Vec<BenchmarkTargetDocument>, checks: &Vec<TargetCheck>) -> (r: Result<
    Vec<BenchmarkTarget>,
    BenchmarkValidationError,
>)
    requires
        documents@.len() == checks@.len(),
    ensures
        match r {
            Ok(targets) => targets_complaint(documents@, checks@) is None && target_facts(targets@)
                == Seq::new(
                documents@.len(),
                |i: int| checked_target(documents@[i], checks@[i]),
            ),
            Err(error) => targets_complaint(documents@, checks@) == Some(error@),
        },
{
    let mut targets: Vec<BenchmarkTarget> = Vec::new();
    let mut i: usize = 0;
    assert(documents@.take(0) =~= Seq::empty());
    while i < documents.len()
        invariant
            i <= documents@.len(),
            documents@.len() == checks@.len(),
            targets_complaint(documents@.take(i as int), checks@) is None,
            targets@.len() == i,
            forall|j: int|
                0 <= j < i ==> (#[trigger] targets@[j])@ == checked_target(
                    documents@[j],
                    checks@[j],
                ),
        decreases documents@.len() - i,
    {
        let document = &documents[i];
        proof {
            assert(documents@.take(i + 1).drop_last() =~= documents@.take(i as int));
            assert(documents@.take(i + 1)[i as int] == documents@[i as int]);
            if targets_complaint(documents@.take(i + 1), checks@) is Some {
                lemma_targets_complaint_stays(documents@, checks@, i + 1);
            }
        }
        let comparison = match parse_comparison(document.comparison.as_str()) {
            Some(comparison) => comparison,
            None => {
                return Err(
                    BenchmarkValidationError::UnsupportedComparisonLabel {
                        label: document.comparison.clone(),
                    },
                );
            },
        };
        match &checks[i].refusal {
            Some(message) => {
                return Err(BenchmarkValidationError::InvalidPart { message: message.clone() });
            },
            None => {},
        }
        targets.push(
            BenchmarkTarget {
                label: document.label.clone(),
                comparison,
                dsn: document.dsn.clone(),
                redacted_dsn: checks[i].redacted_dsn.clone(),
                metric_label: checks[i].metric_label.clone(),
            },
        );
        i += 1;
    }
    assert(documents@.take(i as int) =~= documents@);
    assert(target_facts(targets@) =~= Seq::new(
        documents@.len(),
        |i: int| checked_target(documents@[i], checks@[i]),
    ));
    Ok(targets)
}

/// The refusal of a part, if there is one.
pub open spec fn part_complaint(refusal: Option<String>) -> Option<ScenarioComplaint> {
    match refusal {
        Some(message) => Some(ScenarioComplaint::InvalidPart { message: message@ }),
        None => None,
    }
}

/// The first thing that is wrong with a scenario's document.
pub open spec fn scenario_complaint(
    document: BenchmarkScenarioDocument,
    vocabulary: BenchmarkVocabulary,
    checks: ScenarioChecks,
) -> Option<ScenarioComplaint> {
    if !texts(vocabulary.drivers@).contains(document.driver@) {
        Some(ScenarioComplaint::UnsupportedDriverLabel { label: document.driver@ })
    } else if document.workload@.len() > 0 && !texts(vocabulary.workloads@).contains(
        document.workload@,
    ) {
        Some(ScenarioComplaint::UnsupportedWorkloadLabel { label: document.workload@ })
    } else if document.target_matrix is None {
        Some(ScenarioComplaint::MissingTargetMatrix)
    } else if targets_complaint(document.target_matrix->0@, checks.targets@) is Some {
        targets_complaint(document.target_matrix->0@, checks.targets@)
    } else if document.connections is Some && checks.connections is Some {
        part_complaint(checks.connections)
    } else if document.expected_metrics is Some && checks.expected_metrics is Some {
        part_complaint(checks.expected_metrics)
    } else if checks.warmup is Some {
        part_complaint(checks.warmup)
    } else if checks.matrix is Some {
        part_complaint(checks.matrix)
    } else {
        part_complaint(checks.scenario)
    }
}

/// How long a document's scenario warms up.
pub open spec fn warmup_of(document: BenchmarkScenarioDocument) -> u64 {
    match document.warmup {
        Some(ms) => ms,
        None => match document.warmup_ms {
            Some(ms) => ms,
            None => 5_000,
        },
    }
}

/// Whether a scenario is what a document says.
pub open spec fn scenario_of(
    scenario: BenchmarkScenario,
    document: BenchmarkScenarioDocument,
    vocabulary: BenchmarkVocabulary,
    checks: ScenarioChecks,
) -> bool {
    &&& scenario.name@ == document.name@
    &&& scenario.driver@ == document.driver@
    &&& scenario.workload@ == if document.workload@.len() == 0 {
        vocabulary.default_workload@
    } else {
        document.workload@
    }
    &&& scenario.duration_ms == document.duration_ms
    &&& scenario.warmup_ms == warmup_of(document)
    &&& target_facts(scenario.targets@) == Seq::new(
        document.target_matrix->0@.len(),
        |i: int| checked_target(document.target_matrix->0@[i], checks.targets@[i]),
    )
    &&& scenario.connections == match document.connections {
        Some(profile) => profile,
        None => vocabulary.default_connections,
    }
    &&& scenario.features == match document.features {
        Some(features) => features,
        None => BenchmarkFeatureToggleSet {
            read_routing: false,
            sharding: false,
            policy_overhead: false,
        },
    }
    &&& scenario.expected_metrics == match document.expected_metrics {
        Some(metrics) => metrics,
        None => vocabulary.default_expected_metrics,
    }
}

fn refuse(message: &String) -> (r: BenchmarkValidationError)
    ensures
        Some(r@) == part_complaint(Some(*message)),
{
    BenchmarkValidationError::InvalidPart { message: message.clone() }
}

/// Makes a scenario of a document, or says what is wrong with the document first.
pub fn load_benchmark_scenario(
    document: BenchmarkScenarioDocument,
    metric_label: String,
    vocabulary: &BenchmarkVocabulary,
    checks: &ScenarioChecks,
) -> (r: Result<BenchmarkScenario, BenchmarkValidationError>)
    requires
        document.target_matrix matches Some(targets) ==> targets@.len() == checks.targets@.len(),
    ensures
        match r {
            Ok(scenario) => scenario_complaint(document, *vocabulary, *checks) is None
                && scenario_of(scenario, document, *vocabulary, *checks)
                && scenario.metric_label@ == metric_label@,
            Err(error) => scenario_complaint(document, *vocabulary, *checks) == Some(error@),
        },
{
    if !crate::config::holds_text(&vocabulary.drivers, document.driver.as_str()) {
        return Err(BenchmarkValidationError::UnsupportedDriverLabel { label: document.driver });
    }
    let workload = if document.workload.as_str().is_empty() {
        vocabulary.default_workload.clone()
    } else {
        if !crate::config::holds_text(&vocabulary.workloads, document.workload.as_str()) {
            return Err(
                BenchmarkValidationError::UnsupportedWorkloadLabel { label: document.workload },
            );
        }
        document.workload.clone()
    };
    let warmup_ms: u64 = match document.warmup {
        Some(ms) => ms,
        None => match document.warmup_ms {
            Some(ms) => ms,
            None => default_warmup_ms(),
        },
    };
    let documents = match &document.target_matrix {
        Some(documents) => documents,
        None => {
            return Err(BenchmarkValidationError::MissingTargetMatrix);
        },
    };
    let targets = match check_targets(documents, &checks.targets) {
        Ok(targets) => targets,
        Err(error) => {
            return Err(error);
        },
    };
    let connections = match document.connections {
        Some(profile) => {
            match &checks.connections {
                Some(message) => {
                    return Err(refuse(message));
                },
                None => {},
            }
            profile
        },
        None => vocabulary.default_connections,
    };
    let features = match document.features {
        Some(features) => features,
        None => BenchmarkFeatureToggleSet {
            read_routing: false,
            sharding: false,
            policy_overhead: false,
        },
    };
    let expected_metrics = match document.expected_metrics {
        Some(metrics) => {
            match &checks.expected_metrics {
                Some(message) => {
                    return Err(refuse(message));
                },
                None => {},
            }
            metrics
        },
        None => vocabulary.default_expected_metrics,
    };
    match &checks.warmup {
        Some(message) => {
            return Err(refuse(message));
        },
        None => {},
    }
    match &checks.matrix {
        Some(message) => {
            return Err(refuse(message));
        },
        None => {},
    }
    match &checks.scenario {
        Some(message) => {
            return Err(refuse(message));
        },
        None => {},
    }
    Ok(
        BenchmarkScenario {
            name: document.name,
            metric_label,
            driver: document.driver,
            workload,
            duration_ms: document.duration_ms,
            warmup_ms,
            targets,
            connections,
            features,
            expected_metrics,
        },
    )
}

/// Makes a scenario of a document and checks it as a whole. `refusal` says what is wrong with the
/// whole, if anything is.
pub fn validate_benchmark_scenario(
    document: BenchmarkScenarioDocument,
    metric_label: String,
    vocabulary: &BenchmarkVocabulary,
    checks: &ScenarioChecks,
    refusal: &Option<String>,
) -> (r: Result<BenchmarkScenario, BenchmarkValidationError>)
    requires
        document.target_matrix matches Some(targets) ==> targets@.len() == checks.targets@.len(),
    ensures
        match r {
            Ok(scenario) => scenario_complaint(document, *vocabulary, *checks) is None && refusal
                is None && scenario_of(scenario, document, *vocabulary, *checks)
                && scenario.metric_label@ == metric_label@,
            Err(error) => Some(error@) == if scenario_complaint(document, *vocabulary, *checks)
                is Some {
                scenario_complaint(document, *vocabulary, *checks)
            } else {
                part_complaint(*refusal)
            },
        },
{
    match load_benchmark_scenario(document, metric_label, vocabulary, checks) {
        Err(error) => Err(error),
        Ok(scenario) => match refusal {
            Some(message) => Err(refuse(message)),
            None => Ok(scenario),
        },
    }
}

// ---------------------------------------------------------------------------
// Targets
// ---------------------------------------------------------------------------

/// The name under which a target is reported.
pub fn benchmark_target_label(comparison: BenchmarkComparison) -> (r: &'static str)
    ensures
        r@ == comparison.name(),
{
    comparison.as_str()
}

/// Whether a benchmark cannot do without a target.
pub open spec fn is_required(comparison: BenchmarkComparison) -> bool {
    comparison == BenchmarkComparison::DirectPostgreSQL || comparison
        == BenchmarkComparison::PgKinetic
}

/// Whether a benchmark cannot do without a target.
pub fn benchmark_target_is_required(comparison: BenchmarkComparison) -> (r: bool)
    ensures
        r == is_required(comparison),
{
    comparison == BenchmarkComparison::DirectPostgreSQL || comparison
        == BenchmarkComparison::PgKinetic
}

/// What was found of a target.
#[derive(Clone, Debug)]
pub struct BenchmarkTargetValidation {
    label: &'static str,
    comparison: BenchmarkComparison,
    dsn: String,
    availability: BenchmarkTargetAvailability,
    outcome: BenchmarkTargetOutcome,
}

/// What was found of a target, as plain values.
pub struct ValidationFacts {
    pub label: Seq<char>,
    pub comparison: BenchmarkComparison,
    pub dsn: Seq<char>,
    pub availability: BenchmarkTargetAvailability,
    pub outcome: BenchmarkTargetOutcome,
}

impl View for BenchmarkTargetValidation {
    type V = ValidationFacts;

    closed spec fn view(&self) -> ValidationFacts {
        ValidationFacts {
            label: self.label@,
            comparison: self.comparison,
            dsn: self.dsn@,
            availability: self.availability,
            outcome: self.outcome,
        }
    }
}

impl BenchmarkTargetValidation {
    /// The name under which the target is reported.
    pub fn label(&self) -> (r: &'static str)
        ensures
            r@ == self@.label,
    {
        self.label
    }

    /// What the target is.
    pub fn comparison(&self) -> (r: BenchmarkComparison)
        ensures
            r == self@.comparison,
    {
        self.comparison
    }

    /// Where the target is, as far as that may be shown.
    pub fn dsn(&self) -> (r: &str)
        ensures
            r@ == self@.dsn,
    {
        self.dsn.as_str()
    }

    /// Whether the target can be reached.
    pub fn availability(&self) -> (r: BenchmarkTargetAvailability)
        ensures
            r == self@.availability,
    {
        self.availability
    }

    /// What follows for the target.
    pub fn outcome(&self) -> (r: BenchmarkTargetOutcome)
        ensures
            r == self@.outcome,
    {
        self.outcome
    }
}

/// What was found of a target that can be reached, or cannot.
pub open spec fn validated(target: TargetFacts, reachable: bool) -> ValidationFacts {
    ValidationFacts {
        label: target.comparison.name(),
        comparison: target.comparison,
        dsn: target.redacted_dsn,
        availability: if reachable {
            BenchmarkTargetAvailability::Ready
        } else {
            BenchmarkTargetAvailability::Unavailable
        },
        outcome: if reachable {
            BenchmarkTargetOutcome::Ready
        } else if is_required(target.comparison) {
            BenchmarkTargetOutcome::FailedRequired
        } else {
            BenchmarkTargetOutcome::SkippedOptional
        },
    }
}

/// Findings as plain values.
pub open spec fn validation_facts(list: Seq<BenchmarkTargetValidation>) -> Seq<ValidationFacts> {
    list.map_values(|item: BenchmarkTargetValidation| item@)
}

/// What was found of each target, by whether it can be reached.
pub open spec fn validations(targets: Seq<TargetFacts>, reachable: Seq<bool>) -> Seq<
    ValidationFacts,
> {
    Seq::new(targets.len(), |i: int| validated(targets[i], reachable[i]))
}

/// Whether some target has an outcome.
pub open spec fn some_target(list: Seq<ValidationFacts>, outcome: BenchmarkTargetOutcome) -> bool {
    exists|i: int| 0 <= i < list.len() && (#[trigger] list[i]).outcome == outcome
}

/// What follows for the whole benchmark.
pub open spec fn report_outcome(list: Seq<ValidationFacts>) -> BenchmarkTargetReportOutcome {
    if some_target(list, BenchmarkTargetOutcome::FailedRequired) {
        BenchmarkTargetReportOutcome::FailedRequired
    } else if some_target(list, BenchmarkTargetOutcome::SkippedOptional) {
        BenchmarkTargetReportOutcome::Partial
    } else {
        BenchmarkTargetReportOutcome::Ready
    }
}

/// A benchmark can run exactly where every target that it cannot do without can be reached; it is
/// complete exactly where every target can be.
pub proof fn law_required_targets_decide(targets: Seq<TargetFacts>, reachable: Seq<bool>)
    requires
        targets.len() == reachable.len(),
    ensures
        report_outcome(validations(targets, reachable))
            != BenchmarkTargetReportOutcome::FailedRequired <==> forall|i: int|
            0 <= i < targets.len() && is_required((#[trigger] targets[i]).comparison)
                ==> reachable[i],
        report_outcome(validations(targets, reachable)) == BenchmarkTargetReportOutcome::Ready
            <==> forall|i: int| 0 <= i < reachable.len() ==> #[trigger] reachable[i],
{
    let list = validations(targets, reachable);
    assert forall|i: int| 0 <= i < targets.len() implies #[trigger] list[i] == validated(
        targets[i],
        reachable[i],
    ) by {}
    if report_outcome(list) != BenchmarkTargetReportOutcome::FailedRequired {
        assert forall|i: int|
            0 <= i < targets.len() && is_required((#[trigger] targets[i]).comparison) implies
            reachable[i] by {
            assert(list[i].outcome != BenchmarkTargetOutcome::FailedRequired);
        }
    }
    if report_outcome(list) == BenchmarkTargetReportOutcome::Ready {
        assert forall|i: int| 0 <= i < reachable.len() implies #[trigger] reachable[i] by {
            assert(list[i].outcome != BenchmarkTargetOutcome::FailedRequired);
            assert(list[i].outcome != BenchmarkTargetOutcome::SkippedOptional);
        }
    }
    if forall|i: int| 0 <= i < reachable.len() ==> #[trigger] reachable[i] {
        assert forall|i: int| 0 <= i < list.len() implies (#[trigger] list[i]).outcome
            == BenchmarkTargetOutcome::Ready by {
            assert(reachable[i]);
        }
    }
    if forall|i: int|
        0 <= i < targets.len() && is_required((#[trigger] targets[i]).comparison) ==> reachable[i] {
        assert forall|i: int| 0 <= i < list.len() implies (#[trigger] list[i]).outcome
            != BenchmarkTargetOutcome::FailedRequired by {
            let target = targets[i];
        }
    }
}

/// What was found of a benchmark's targets.
#[derive(Clone, Debug)]
pub struct BenchmarkTargetValidationReport {
    outcome: BenchmarkTargetReportOutcome,
    targets: Vec<BenchmarkTargetValidation>,
}

impl BenchmarkTargetValidationReport {
    /// What follows for the benchmark.
    pub closed spec fn follows(self) -> BenchmarkTargetReportOutcome {
        self.outcome
    }

    /// What was found of each target.
    pub closed spec fn found(self) -> Seq<ValidationFacts> {
        validation_facts(self.targets@)
    }

    /// What follows for the benchmark.
    pub fn outcome(&self) -> (r: BenchmarkTargetReportOutcome)
        ensures
            r == self.follows(),
    {
        self.outcome
    }

    /// What was found of each target.
    pub fn targets(&self) -> (r: &Vec<BenchmarkTargetValidation>)
        ensures
            validation_facts(r@) == self.found(),
    {
        &self.targets
    }

    /// Whether the benchmark can run.
    pub fn can_run(&self) -> (r: bool)
        ensures
            r == (self.follows() != BenchmarkTargetReportOutcome::FailedRequired),
    {
        self.outcome != BenchmarkTargetReportOutcome::FailedRequired
    }
}

proof fn lemma_some_target_push(
    list: Seq<ValidationFacts>,
    item: ValidationFacts,
    outcome: BenchmarkTargetOutcome,
)
    ensures
        some_target(list.push(item), outcome) == (some_target(list, outcome) || item.outcome
            == outcome),
{
    let all = list.push(item);
    if some_target(list, outcome) {
        let i = choose|i: int| 0 <= i < list.len() && (#[trigger] list[i]).outcome == outcome;
        assert(all[i] == list[i]);
    }
    if item.outcome == outcome {
        assert(all[list.len() as int] == item);
    }
    if some_target(all, outcome) {
        let i = choose|i: int| 0 <= i < all.len() && (#[trigger] all[i]).outcome == outcome;
        if i < list.len() {
            assert(list[i] == all[i]);
        }
    }
}

/// Says what follows for a benchmark's targets, by whether each can be reached.
pub fn validate_benchmark_targets_with(scenario: &BenchmarkScenario, reachable: &Vec<bool>) -> (r:
    BenchmarkTargetValidationReport)
    requires
        reachable@.len() == scenario.targets@.len(),
    ensures
        r.found() == validations(target_facts(scenario.targets@), reachable@),
        r.follows() == report_outcome(r.found()),
{
    let mut targets: Vec<BenchmarkTargetValidation> = Vec::new();
    let mut failed = false;
    let mut skipped = false;
    let ghost facts = target_facts(scenario.targets@);
    let mut i: usize = 0;
    while i < scenario.targets.len()
        invariant
            i <= scenario.targets@.len(),
            facts == target_facts(scenario.targets@),
            reachable@.len() == scenario.targets@.len(),
            targets@.len() == i,
            forall|j: int|
                0 <= j < i ==> (#[trigger] targets@[j])@ == validated(facts[j], reachable@[j]),
            failed == some_target(
                validation_facts(targets@),
                BenchmarkTargetOutcome::FailedRequired,
            ),
            skipped == some_target(
                validation_facts(targets@),
                BenchmarkTargetOutcome::SkippedOptional,
            ),
        decreases scenario.targets@.len() - i,
    {
        let target = &scenario.targets[i];
        assert(facts[i as int] == target@);
        let availability = if reachable[i] {
            BenchmarkTargetAvailability::Ready
        } else {
            BenchmarkTargetAvailability::Unavailable
        };
        let outcome = if reachable[i] {
            BenchmarkTargetOutcome::Ready
        } else if benchmark_target_is_required(target.comparison) {
            BenchmarkTargetOutcome::FailedRequired
        } else {
            BenchmarkTargetOutcome::SkippedOptional
        };
        let ghost held = targets@;
        targets.push(
            BenchmarkTargetValidation {
                label: benchmark_target_label(target.comparison),
                comparison: target.comparison,
                dsn: target.redacted_dsn.clone(),
                availability,
                outcome,
            },
        );
        proof {
            let found = targets@[i as int]@;
            assert(validation_facts(targets@) =~= validation_facts(held).push(found));
            lemma_some_target_push(
                validation_facts(held),
                found,
                BenchmarkTargetOutcome::FailedRequired,
            );
            lemma_some_target_push(
                validation_facts(held),
                found,
                BenchmarkTargetOutcome::SkippedOptional,
            );
        }
        if outcome == BenchmarkTargetOutcome::FailedRequired {
            failed = true;
        }
        if outcome == BenchmarkTargetOutcome::SkippedOptional {
            skipped = true;
        }
        i += 1;
    }
    let ghost list = validation_facts(targets@);
    proof {
        assert(list =~= validations(facts, reachable@));
    }
    let outcome = if failed {
        BenchmarkTargetReportOutcome::FailedRequired
    } else if skipped {
        BenchmarkTargetReportOutcome::Partial
    } else {
        BenchmarkTargetReportOutcome::Ready
    };
    BenchmarkTargetValidationReport { outcome, targets }
}

/// Whether an authority ends at a character.
pub open spec fn ends_authority(c: char) -> bool {
    c == '/' || c == '?' || c == '#'
}

/// The beginning of some text up to where its authority ends.
pub open spec fn authority_of(text: Seq<char>) -> Seq<char>
    decreases text.len(),
{
    if text.len() == 0 || ends_authority(text[0]) {
        Seq::empty()
    } else {
        seq![text[0]] + authority_of(text.skip(1))
    }
}

/// The end of some text behind the last place where another stands; all of it where none is.
pub open spec fn behind_last(text: Seq<char>, mark: Seq<char>) -> Seq<char> {
    match last_place(text, mark, text.len() as int) {
        Some(at) => text.skip(at + mark.len()),
        None => text,
    }
}

/// The port that a text is.
pub open spec fn port_of(text: Seq<char>) -> Option<u16> {
    match read_unsigned(text, 65_535) {
        Ok(n) => Some(n as u16),
        Err(_) => None,
    }
}

/// The host and the port of `host:port` or `[host]:port`.
pub open spec fn host_and_port(text: Seq<char>) -> Option<(Seq<char>, u16)> {
    let bracket = index_of(text, ']');
    if bracket < text.len() {
        if text[0] != '[' {
            None
        } else if bracket + 1 < text.len() && text[bracket + 1] == ':' {
            match port_of(text.skip(bracket + 2)) {
                Some(port) => Some((text.subrange(1, bracket), port)),
                None => None,
            }
        } else {
            None
        }
    } else {
        match last_place(text, ":"@, text.len() as int) {
            None => None,
            Some(at) => match port_of(text.skip(at + 1)) {
                Some(port) => Some((text.take(at), port)),
                None => None,
            },
        }
    }
}

/// The host and the port that a connection string names: between `://` and the path, behind any
/// user.
pub open spec fn endpoint_of(dsn: Seq<char>) -> Option<(Seq<char>, u16)> {
    match first_place(dsn, "://"@, 0) {
        None => None,
        Some(at) => host_and_port(behind_last(authority_of(dsn.skip(at + 3)), "@"@)),
    }
}

proof fn lemma_authority(text: Seq<char>, k: int)
    requires
        0 <= k <= text.len(),
        forall|j: int| 0 <= j < k ==> !ends_authority(#[trigger] text[j]),
        k == text.len() || ends_authority(text[k]),
    ensures
        authority_of(text) == text.take(k),
    decreases text.len(),
{
    if k == 0 {
        assert(text.take(0) =~= Seq::empty());
    } else {
        assert forall|j: int| 0 <= j < k - 1 implies !ends_authority(
            #[trigger] text.skip(1)[j],
        ) by {
            assert(text.skip(1)[j] == text[j + 1]);
        }
        if k < text.len() {
            assert(text.skip(1)[k - 1] == text[k]);
        }
        assert(!ends_authority(text[0]));
        lemma_authority(text.skip(1), k - 1);
        assert(seq![text[0]] + text.skip(1).take(k - 1) =~= text.take(k));
    }
}

fn parse_port(text: &str) -> (r: Option<u16>)
    ensures
        r == port_of(text@),
{
    match parse_unsigned(text, 65_535) {
        Ok(n) => Some(n as u16),
        Err(_) => None,
    }
}

fn parse_host_and_port(chars: &[char]) -> (r: Option<(String, u16)>)
    ensures
        match r {
            Some((host, port)) => host_and_port(chars@) == Some((host@, port)),
            None => host_and_port(chars@) is None,
        },
{
    let bracket: usize = find_char(chars, ']', 0);
    proof {
        assert(chars@.skip(0) =~= chars@);
        lemma_index_of(chars@, ']');
    }
    if bracket < chars.len() {
        if chars[0] != '[' {
            return None;
        }
        assert(bracket > 0);
        if bracket + 1 >= chars.len() || chars[bracket + 1] != ':' {
            return None;
        }
        let rest = string_of_range(chars, bracket + 2, chars.len());
        assert(rest@ =~= chars@.skip(bracket + 2));
        return match parse_port(rest.as_str()) {
            Some(port) => Some((string_of_range(chars, 1, bracket), port)),
            None => None,
        };
    }
    let colon = chars_of(":");
    proof {
        reveal_strlit(":");
        lemma_last_place(chars@, ":"@, chars@.len() as int);
    }
    match find_last_part(chars, &colon) {
        None => None,
        Some(at) => {
            let rest = string_of_range(chars, at + 1, chars.len());
            assert(rest@ =~= chars@.skip(at + 1));
            let host = string_of_range(chars, 0, at);
            assert(host@ =~= chars@.take(at as int));
            match parse_port(rest.as_str()) {
                Some(port) => Some((host, port)),
                None => None,
            }
        },
    }
}

/// The host and the port that a connection string names.
pub fn benchmark_target_endpoint(dsn: &str) -> (r: Option<(String, u16)>)
    ensures
        match r {
            Some((host, port)) => endpoint_of(dsn@) == Some((host@, port)),
            None => endpoint_of(dsn@) is None,
        },
{
    let chars = chars_of(dsn);
    let mark = chars_of("://");
    proof {
        reveal_strlit("://");
        reveal_strlit("@");
        lemma_first_place(dsn@, "://"@, 0);
    }
    let at: usize = match find_part(&chars, &mark) {
        Some(at) => at,
        None => {
            return None;
        },
    };
    let length: usize = chars.len();
    let rest = chars_of(string_of_range(&chars, at + 3, length).as_str());
    assert(rest@ =~= dsn@.skip(at + 3));
    let mut end: usize = 0;
    while end < rest.len() && !(rest[end] == '/' || rest[end] == '?' || rest[end] == '#')
        invariant
            end <= rest@.len(),
            forall|j: int| 0 <= j < end ==> !ends_authority(#[trigger] rest@[j]),
        decreases rest@.len() - end,
    {
        end += 1;
    }
    proof {
        lemma_authority(rest@, end as int);
    }
    let authority = chars_of(string_of_range(&rest, 0, end).as_str());
    assert(authority@ =~= rest@.take(end as int));
    let at_sign = chars_of("@");
    proof {
        lemma_last_place(authority@, "@"@, authority@.len() as int);
    }
    let start: usize = match find_last_part(&authority, &at_sign) {
        Some(place) => place + 1,
        None => 0,
    };
    let host = chars_of(string_of_range(&authority, start, authority.len()).as_str());
    assert(host@ =~= behind_last(authority@, "@"@));
    parse_host_and_port(&host)
}

// ---------------------------------------------------------------------------
// Reports
// ---------------------------------------------------------------------------

/// A number that was measured: `exact` is the number as JSON writes it, and `shown` the same with
/// three digits behind the point, for tables.
#[derive(Clone, Debug)]
pub struct MeasuredValue {
    pub exact: String,
    pub shown: String,
}

/// What was measured.
#[derive(Clone, Debug)]
pub struct BenchmarkMetric {
    pub p50_ms: MeasuredValue,
    pub p95_ms: MeasuredValue,
    pub p99_ms: MeasuredValue,
    pub throughput_qps: MeasuredValue,
    pub cpu_label: String,
    pub memory_label: String,
    pub error_rate: MeasuredValue,
}

/// What was measured of a target.
#[derive(Clone, Debug)]
pub struct BenchmarkResult {
    pub scenario: String,
    pub target: BenchmarkTarget,
    pub driver: String,
    pub duration_ms: u64,
    pub metrics: BenchmarkMetric,
}

/// A run of a benchmark. The process sample is JSON text.
#[derive(Clone, Debug)]
pub struct BenchmarkRunReport {
    pub scenario: BenchmarkScenario,
    pub results: Vec<BenchmarkResult>,
    pub process_status: ProcessMetricCollectionStatus,
    pub process_sample: String,
    pub operating_system: String,
    pub architecture: String,
    pub dry_run: bool,
    pub git_commit: Option<String>,
}

/// The members of what was measured.
pub open spec fn metric_members(metrics: BenchmarkMetric) -> Seq<Seq<char>> {
    seq![
        json_member("cpu_label"@, json_quoted_of(metrics.cpu_label@)),
        json_member("error_rate"@, metrics.error_rate.exact@),
        json_member("memory_label"@, json_quoted_of(metrics.memory_label@)),
        json_member("p50_ms"@, metrics.p50_ms.exact@),
        json_member("p95_ms"@, metrics.p95_ms.exact@),
        json_member("p99_ms"@, metrics.p99_ms.exact@),
        json_member("throughput_qps"@, metrics.throughput_qps.exact@),
    ]
}

/// The members of a target.
pub open spec fn target_members(target: BenchmarkTarget) -> Seq<Seq<char>> {
    seq![
        json_member("comparison"@, json_quoted_of(target.comparison.name())),
        json_member("dsn"@, json_quoted_of(target.redacted_dsn@)),
        json_member("label"@, json_quoted_of(target.label@)),
    ]
}

/// The members of a result.
pub open spec fn result_members(result: BenchmarkResult) -> Seq<Seq<char>> {
    seq![
        json_member("driver"@, json_quoted_of(result.driver@)),
        json_member("duration_ms"@, decimal(result.duration_ms as nat)),
        json_member("metrics"@, json_object(metric_members(result.metrics))),
        json_member("scenario"@, json_quoted_of(result.scenario@)),
        json_member("target"@, json_object(target_members(result.target))),
    ]
}

/// How results are written.
pub open spec fn results_json(results: Seq<BenchmarkResult>) -> Seq<char> {
    json_list(results.map_values(|result: BenchmarkResult| json_object(result_members(result))))
}

/// The members of a run's surroundings.
pub open spec fn environment_members(report: BenchmarkRunReport) -> Seq<Seq<char>> {
    seq![
        json_member("architecture"@, json_quoted_of(report.architecture@)),
        json_member(
            "git"@,
            json_object(seq![json_member("commit"@, json_optional(opt_text(report.git_commit)))]),
        ),
        json_member("operating_system"@, json_quoted_of(report.operating_system@)),
    ]
}

/// The members of what was learnt of the process.
pub open spec fn process_members(report: BenchmarkRunReport) -> Seq<Seq<char>> {
    seq![
        json_member("sample"@, report.process_sample@),
        json_member("status"@, json_quoted_of(report.process_status.name())),
    ]
}

/// The members of how a scenario connects.
pub open spec fn connection_members(profile: BenchmarkConnectionProfile) -> Seq<Seq<char>> {
    seq![
        json_member("concurrency"@, decimal(profile.concurrency as nat)),
        json_member("connection_count"@, decimal(profile.connection_count as nat)),
    ]
}

/// The members of a scenario.
pub open spec fn scenario_members(scenario: BenchmarkScenario) -> Seq<Seq<char>> {
    seq![
        json_member("connections"@, json_object(connection_members(scenario.connections))),
        json_member("driver"@, json_quoted_of(scenario.driver@)),
        json_member("duration_ms"@, decimal(scenario.duration_ms as nat)),
        json_member("name"@, json_quoted_of(scenario.name@)),
        json_member("warmup_ms"@, decimal(scenario.warmup_ms as nat)),
        json_member("workload"@, json_quoted_of(scenario.workload@)),
    ]
}

/// The members of a run.
pub open spec fn run_members(report: BenchmarkRunReport) -> Seq<Seq<char>> {
    seq![
        json_member("dry_run"@, json_bool(report.dry_run)),
        json_member("environment"@, json_object(environment_members(report))),
        json_member("ok"@, json_bool(true)),
        json_member("process_metrics"@, json_object(process_members(report))),
        json_member("results"@, results_json(report.results@)),
        json_member("scenario"@, json_object(scenario_members(report.scenario))),
    ]
}

fn render_result(result: &BenchmarkResult) -> (r: String)
    ensures
        r@ == json_object(result_members(*result)),
{
    let mut metrics: Vec<String> = Vec::new();
    push_member(&mut metrics, "cpu_label", json_quoted(result.metrics.cpu_label.as_str()).as_str());
    push_member(&mut metrics, "error_rate", result.metrics.error_rate.exact.as_str());
    push_member(
        &mut metrics,
        "memory_label",
        json_quoted(result.metrics.memory_label.as_str()).as_str(),
    );
    push_member(&mut metrics, "p50_ms", result.metrics.p50_ms.exact.as_str());
    push_member(&mut metrics, "p95_ms", result.metrics.p95_ms.exact.as_str());
    push_member(&mut metrics, "p99_ms", result.metrics.p99_ms.exact.as_str());
    push_member(&mut metrics, "throughput_qps", result.metrics.throughput_qps.exact.as_str());
    assert(texts(metrics@) =~= metric_members(result.metrics));
    let metrics = object_json(&metrics);
    let mut target: Vec<String> = Vec::new();
    push_member(
        &mut target,
        "comparison",
        json_quoted(result.target.comparison.as_str()).as_str(),
    );
    push_member(&mut target, "dsn", json_quoted(result.target.redacted_dsn.as_str()).as_str());
    push_member(&mut target, "label", json_quoted(result.target.label.as_str()).as_str());
    assert(texts(target@) =~= target_members(result.target));
    let target = object_json(&target);
    let mut members: Vec<String> = Vec::new();
    push_member(&mut members, "driver", json_quoted(result.driver.as_str()).as_str());
    push_member(&mut members, "duration_ms", u64_text(result.duration_ms).as_str());
    push_member(&mut members, "metrics", metrics.as_str());
    push_member(&mut members, "scenario", json_quoted(result.scenario.as_str()).as_str());
    push_member(&mut members, "target", target.as_str());
    assert(texts(members@) =~= result_members(*result));
    object_json(&members)
}

impl BenchmarkRunReport {
    /// Writes the run as JSON.
    pub fn render_json(&self) -> (r: String)
        ensures
            r@ == json_object(run_members(*self)),
    {
        let mut results: Vec<String> = Vec::new();
        let mut i: usize = 0;
        while i < self.results.len()
            invariant
                i <= self.results@.len(),
                results@.len() == i,
                forall|j: int|
                    0 <= j < i ==> (#[trigger] results@[j])@ == json_object(
                        result_members(self.results@[j]),
                    ),
            decreases self.results@.len() - i,
        {
            results.push(render_result(&self.results[i]));
            i += 1;
        }
        assert(texts(results@) =~= self.results@.map_values(
            |result: BenchmarkResult| json_object(result_members(result)),
        ));
        let mut git: Vec<String> = Vec::new();
        push_member(&mut git, "commit", optional_json(&self.git_commit).as_str());
        assert(texts(git@) =~= seq![json_member("commit"@, json_optional(opt_text(self.git_commit)))]);
        let mut environment: Vec<String> = Vec::new();
        push_member(
            &mut environment,
            "architecture",
            json_quoted(self.architecture.as_str()).as_str(),
        );
        push_member(&mut environment, "git", object_json(&git).as_str());
        push_member(
            &mut environment,
            "operating_system",
            json_quoted(self.operating_system.as_str()).as_str(),
        );
        assert(texts(environment@) =~= environment_members(*self));
        let mut process: Vec<String> = Vec::new();
        push_member(&mut process, "sample", self.process_sample.as_str());
        push_member(&mut process, "status", json_quoted(self.process_status.as_str()).as_str());
        assert(texts(process@) =~= process_members(*self));
        let mut connections: Vec<String> = Vec::new();
        push_member(
            &mut connections,
            "concurrency",
            u64_text(self.scenario.connections.concurrency as u64).as_str(),
        );
        push_member(
            &mut connections,
            "connection_count",
            u64_text(self.scenario.connections.connection_count as u64).as_str(),
        );
        assert(texts(connections@) =~= connection_members(self.scenario.connections));
        let mut scenario: Vec<String> = Vec::new();
        push_member(&mut scenario, "connections", object_json(&connections).as_str());
        push_member(&mut scenario, "driver", json_quoted(self.scenario.driver.as_str()).as_str());
        push_member(&mut scenario, "duration_ms", u64_text(self.scenario.duration_ms).as_str());
        push_member(&mut scenario, "name", json_quoted(self.scenario.name.as_str()).as_str());
        push_member(&mut scenario, "warmup_ms", u64_text(self.scenario.warmup_ms).as_str());
        push_member(
            &mut scenario,
            "workload",
            json_quoted(self.scenario.workload.as_str()).as_str(),
        );
        assert(texts(scenario@) =~= scenario_members(self.scenario));
        let mut members: Vec<String> = Vec::new();
        push_member(&mut members, "dry_run", bool_json(self.dry_run).as_str());
        push_member(&mut members, "environment", object_json(&environment).as_str());
        push_member(&mut members, "ok", bool_json(true).as_str());
        push_member(&mut members, "process_metrics", object_json(&process).as_str());
        push_member(&mut members, "results", list_json(&results).as_str());
        push_member(&mut members, "scenario", object_json(&scenario).as_str());
        assert(texts(members@) =~= run_members(*self));
        object_json(&members)
    }
}

/// A run that was written earlier: its scenario and, of each target, what was measured as it is
/// written.
#[derive(Clone, Debug)]
pub struct StoredBenchmarkReport {
    pub scenario: String,
    pub results: Vec<StoredBenchmarkResult>,
}

/// What was measured of a target earlier.
#[derive(Clone, Debug)]
pub struct StoredBenchmarkResult {
    pub comparison: String,
    pub p50_ms: String,
    pub p95_ms: String,
    pub p99_ms: String,
    pub throughput_qps: String,
    pub error_rate: String,
}

/// Why reports cannot be compared.
#[derive(Clone, Debug, PartialEq, Eq)]
pub struct BenchmarkReportError {
    pub message: String,
}

impl BenchmarkReportError {
    /// What the error says.
    pub fn text(&self) -> (r: String)
        ensures
            r@ == "benchmark report error: "@ + self.message@,
    {
        join2("benchmark report error: ", self.message.as_str())
    }
}

/// Checks that a report that was read from a file is one: it names its scenario and holds a
/// result.
pub fn check_stored_report(report: &StoredBenchmarkReport, path: &str) -> (r: Result<
    (),
    BenchmarkReportError,
>)
    ensures
        match r {
            Ok(()) => !is_blank(report.scenario@) && report.results@.len() > 0,
            Err(error) => (is_blank(report.scenario@) || report.results@.len() == 0)
                && error.message@ == path@
                + " does not contain a scenario and at least one result"@,
        },
{
    if blank(report.scenario.as_str()) || report.results.len() == 0 {
        return Err(
            BenchmarkReportError {
                message: join2(path, " does not contain a scenario and at least one result"),
            },
        );
    }
    Ok(())
}

/// The comparisons of a report's results, in the order in which they stand.
pub open spec fn compared(results: Seq<StoredBenchmarkResult>) -> Seq<Seq<char>> {
    results.map_values(|result: StoredBenchmarkResult| result.comparison@)
}

fn report_target_set(report: &StoredBenchmarkReport) -> (r: Vec<String>)
    ensures
        texts(r@) == sorted(compared(report.results@)),
{
    let mut list: Vec<String> = Vec::new();
    let mut i: usize = 0;
    while i < report.results.len()
        invariant
            i <= report.results@.len(),
            list@.len() == i,
            forall|j: int| 0 <= j < i ==> (#[trigger] list@[j])@ == report.results@[j].comparison@,
        decreases report.results@.len() - i,
    {
        list.push(report.results[i].comparison.clone());
        i += 1;
    }
    assert(texts(list@) =~= compared(report.results@));
    sorted_texts(&list)
}

fn same_texts(a: &Vec<String>, b: &Vec<String>) -> (r: bool)
    ensures
        r == (texts(a@) == texts(b@)),
{
    if a.len() != b.len() {
        assert(texts(a@).len() != texts(b@).len());
        return false;
    }
    let mut i: usize = 0;
    while i < a.len()
        invariant
            i <= a@.len(),
            a@.len() == b@.len(),
            forall|j: int| 0 <= j < i ==> (#[trigger] a@[j])@ == b@[j]@,
        decreases a@.len() - i,
    {
        if !same_text(a[i].as_str(), b[i].as_str()) {
            assert(texts(a@)[i as int] != texts(b@)[i as int]);
            return false;
        }
        i += 1;
    }
    assert(texts(a@) =~= texts(b@));
    true
}

/// How a list of texts is shown: each as it is shown by itself, in brackets.
pub open spec fn shown_list_of(list: Seq<Seq<char>>) -> Seq<char> {
    "["@ + joined(list.map_values(|text: Seq<char>| shown_text_of(text)), ", "@) + "]"@
}

fn shown_list(list: &Vec<String>) -> (r: String)
    ensures
        r@ == shown_list_of(texts(list@)),
{
    let mut shown: Vec<String> = Vec::new();
    let mut i: usize = 0;
    while i < list.len()
        invariant
            i <= list@.len(),
            shown@.len() == i,
            forall|j: int| 0 <= j < i ==> (#[trigger] shown@[j])@ == shown_text_of(list@[j]@),
        decreases list@.len() - i,
    {
        shown.push(shown_text(list[i].as_str()));
        i += 1;
    }
    assert(texts(shown@) =~= texts(list@).map_values(|text: Seq<char>| shown_text_of(text)));
    join3("[", join_all(&shown, ", ").as_str(), "]")
}

/// The value of a result by which it is compared, as it is written.
pub open spec fn metric_text(
    result: StoredBenchmarkResult,
    metric: PerformanceMetric,
) -> Seq<char> {
    match metric {
        PerformanceMetric::LatencyP50 => result.p50_ms@,
        PerformanceMetric::LatencyP95 => result.p95_ms@,
        PerformanceMetric::LatencyP99 => result.p99_ms@,
        PerformanceMetric::Throughput => result.throughput_qps@,
        PerformanceMetric::ErrorRate => result.error_rate@,
        _ => "0.0"@,
    }
}

/// The value of a result by which it is compared, as it is written.
pub fn stored_metric_value(result: &StoredBenchmarkResult, metric: PerformanceMetric) -> (r: String)
    ensures
        r@ == metric_text(*result, metric),
{
    match metric {
        PerformanceMetric::LatencyP50 => result.p50_ms.clone(),
        PerformanceMetric::LatencyP95 => result.p95_ms.clone(),
        PerformanceMetric::LatencyP99 => result.p99_ms.clone(),
        PerformanceMetric::Throughput => result.throughput_qps.clone(),
        PerformanceMetric::ErrorRate => result.error_rate.clone(),
        PerformanceMetric::LatencyP999 | PerformanceMetric::CpuPerQuery
        | PerformanceMetric::MemoryPerClient => "0.0".to_owned(),
    }
}

/// What a measurement of a target is of.
pub open spec fn measured(comparison: BenchmarkComparison) -> PerformanceBenchmarkTarget {
    match comparison {
        BenchmarkComparison::DirectPostgreSQL => PerformanceBenchmarkTarget::DirectPostgres,
        BenchmarkComparison::PgBouncer => PerformanceBenchmarkTarget::PgBouncer,
        BenchmarkComparison::PgDog => PerformanceBenchmarkTarget::PgDog,
        BenchmarkComparison::PgKinetic => PerformanceBenchmarkTarget::PgKinetic,
    }
}

/// What a measurement of a target is of.
pub fn performance_target(comparison: BenchmarkComparison) -> (r: PerformanceBenchmarkTarget)
    ensures
        r == measured(comparison),
{
    match comparison {
        BenchmarkComparison::DirectPostgreSQL => PerformanceBenchmarkTarget::DirectPostgres,
        BenchmarkComparison::PgBouncer => PerformanceBenchmarkTarget::PgBouncer,
        BenchmarkComparison::PgDog => PerformanceBenchmarkTarget::PgDog,
        BenchmarkComparison::PgKinetic => PerformanceBenchmarkTarget::PgKinetic,
    }
}

/// One value next to the one that was measured before.
#[derive(Clone, Debug)]
pub struct BenchmarkReportComparisonEntry {
    pub scenario: String,
    pub target: PerformanceBenchmarkTarget,
    pub metric: PerformanceMetric,
    pub baseline_value: Option<String>,
    pub current_value: String,
    pub outcome: PerformanceBudgetOutcome,
}

/// One value next to the one that was measured before, as plain values.
pub struct EntryFacts {
    pub scenario: Seq<char>,
    pub target: PerformanceBenchmarkTarget,
    pub metric: PerformanceMetric,
    pub baseline: Option<Seq<char>>,
    pub current: Seq<char>,
    pub outcome: PerformanceBudgetOutcome,
}

impl View for BenchmarkReportComparisonEntry {
    type V = EntryFacts;

    open spec fn view(&self) -> EntryFacts {
        EntryFacts {
            scenario: self.scenario@,
            target: self.target,
            metric: self.metric,
            baseline: opt_text(self.baseline_value),
            current: self.current_value@,
            outcome: self.outcome,
        }
    }
}

/// Values next to those that were measured before, as plain values.
pub open spec fn entry_facts(entries: Seq<BenchmarkReportComparisonEntry>) -> Seq<EntryFacts> {
    entries.map_values(|entry: BenchmarkReportComparisonEntry| entry@)
}

/// Two measurements next to each other.
#[derive(Clone, Debug)]
pub struct BenchmarkReportComparison {
    pub baseline: String,
    pub current: String,
    pub outcome: BenchmarkReportOutcome,
    pub error: Option<String>,
    pub entries: Vec<BenchmarkReportComparisonEntry>,
}

/// The first result of a target.
pub open spec fn result_of(results: Seq<StoredBenchmarkResult>, comparison: Seq<char>) -> Option<
    StoredBenchmarkResult,
>
    decreases results.len(),
{
    if results.len() == 0 {
        None
    } else if results[0].comparison@ == comparison {
        Some(results[0])
    } else {
        result_of(results.skip(1), comparison)
    }
}

/// The place of the first result of a target among some results: what a result of that target is
/// held against.
pub fn result_place(results: &Vec<StoredBenchmarkResult>, comparison: &str) -> (r: Option<usize>)
    ensures
        match r {
            Some(place) => {
                &&& place < results@.len()
                &&& results@[place as int].comparison@ == comparison@
                &&& forall|j: int|
                    0 <= j < place ==> (#[trigger] results@[j]).comparison@ != comparison@
                &&& result_of(results@, comparison@) == Some(results@[place as int])
            },
            None => {
                &&& forall|j: int|
                    0 <= j < results@.len() ==> (#[trigger] results@[j]).comparison@ != comparison@
                &&& result_of(results@, comparison@) is None
            },
        },
{
    let mut i: usize = 0;
    assert(results@.skip(0) =~= results@);
    while i < results.len()
        invariant
            i <= results@.len(),
            forall|j: int| 0 <= j < i ==> (#[trigger] results@[j]).comparison@ != comparison@,
            result_of(results@, comparison@) == result_of(results@.skip(i as int), comparison@),
        decreases results@.len() - i,
    {
        assert(results@.skip(i as int)[0] == results@[i as int]);
        if same_text(results[i].comparison.as_str(), comparison) {
            return Some(i);
        }
        assert(results@.skip(i as int).skip(1) =~= results@.skip(i + 1));
        i += 1;
    }
    None
}

/// One entry: a metric of a result, next to that of the same target in the earlier report.
/// `outcomes` holds how each metric of each result keeps to what is allowed.
pub open spec fn entry_of(
    baseline: Seq<StoredBenchmarkResult>,
    scenario: Seq<char>,
    result: StoredBenchmarkResult,
    metric: PerformanceMetric,
    outcome: PerformanceBudgetOutcome,
) -> EntryFacts {
    EntryFacts {
        scenario,
        target: measured(comparison_named(result.comparison@)->0),
        metric,
        baseline: match result_of(baseline, result.comparison@) {
            Some(earlier) => Some(metric_text(earlier, metric)),
            None => None,
        },
        current: metric_text(result, metric),
        outcome,
    }
}

/// How each of the compared metrics of a result keeps to what is allowed.
#[derive(Clone, Copy, Debug, PartialEq, Eq, Structural)]
pub struct MetricOutcomes {
    pub latency_p50: PerformanceBudgetOutcome,
    pub latency_p95: PerformanceBudgetOutcome,
    pub latency_p99: PerformanceBudgetOutcome,
    pub throughput: PerformanceBudgetOutcome,
    pub error_rate: PerformanceBudgetOutcome,
}

/// The entries of one result.
pub open spec fn result_entries(
    baseline: Seq<StoredBenchmarkResult>,
    scenario: Seq<char>,
    result: StoredBenchmarkResult,
    outcomes: MetricOutcomes,
) -> Seq<EntryFacts> {
    seq![
        entry_of(baseline, scenario, result, PerformanceMetric::LatencyP50, outcomes.latency_p50),
        entry_of(baseline, scenario, result, PerformanceMetric::LatencyP95, outcomes.latency_p95),
        entry_of(baseline, scenario, result, PerformanceMetric::LatencyP99, outcomes.latency_p99),
        entry_of(baseline, scenario, result, PerformanceMetric::Throughput, outcomes.throughput),
        entry_of(baseline, scenario, result, PerformanceMetric::ErrorRate, outcomes.error_rate),
    ]
}

/// The entries of some results.
pub open spec fn all_entries(
    baseline: Seq<StoredBenchmarkResult>,
    scenario: Seq<char>,
    results: Seq<StoredBenchmarkResult>,
    outcomes: Seq<MetricOutcomes>,
) -> Seq<EntryFacts>
    decreases results.len(),
{
    if results.len() == 0 {
        Seq::empty()
    } else {
        all_entries(baseline, scenario, results.drop_last(), outcomes) + result_entries(
            baseline,
            scenario,
            results.last(),
            outcomes[results.len() - 1],
        )
    }
}

/// The first target of some results that nothing is known of.
pub open spec fn unsupported_target(results: Seq<StoredBenchmarkResult>) -> Option<Seq<char>>
    decreases results.len(),
{
    if results.len() == 0 {
        None
    } else if comparison_named(results[0].comparison@) is None {
        Some(results[0].comparison@)
    } else {
        unsupported_target(results.skip(1))
    }
}

/// Whether some entry has an outcome.
pub open spec fn some_entry(entries: Seq<EntryFacts>, outcome: PerformanceBudgetOutcome) -> bool {
    exists|i: int| 0 <= i < entries.len() && (#[trigger] entries[i]).outcome == outcome
}

/// What follows from the entries.
pub open spec fn comparison_outcome(entries: Seq<EntryFacts>) -> BenchmarkReportOutcome {
    if some_entry(entries, PerformanceBudgetOutcome::Failed) {
        BenchmarkReportOutcome::Failed
    } else if some_entry(entries, PerformanceBudgetOutcome::Warning) {
        BenchmarkReportOutcome::Warning
    } else {
        BenchmarkReportOutcome::Passed
    }
}

/// Why two reports are not comparable at all.
pub open spec fn incompatibility(
    baseline: StoredBenchmarkReport,
    current: StoredBenchmarkReport,
) -> Option<Seq<char>> {
    let before = sorted(compared(baseline.results@));
    let after = sorted(compared(current.results@));
    if baseline.scenario@ != current.scenario@ {
        Some(
            "incompatible benchmark reports: scenario names differ (baseline '"@
                + baseline.scenario@ + "', current '"@ + current.scenario@ + "')"@,
        )
    } else if before != after {
        Some(
            "incompatible benchmark reports: target sets differ (baseline "@ + shown_list_of(before)
                + ", current "@ + shown_list_of(after) + ")"@,
        )
    } else {
        None
    }
}

fn entry(
    baseline: &Vec<StoredBenchmarkResult>,
    scenario: &str,
    result: &StoredBenchmarkResult,
    target: BenchmarkComparison,
    metric: PerformanceMetric,
    outcome: PerformanceBudgetOutcome,
) -> (r: BenchmarkReportComparisonEntry)
    requires
        comparison_named(result.comparison@) == Some(target),
    ensures
        r@ == entry_of(baseline@, scenario@, *result, metric, outcome),
{
    let baseline_value = match result_place(baseline, result.comparison.as_str()) {
        Some(place) => Some(stored_metric_value(&baseline[place], metric)),
        None => None,
    };
    BenchmarkReportComparisonEntry {
        scenario: scenario.to_owned(),
        target: performance_target(target),
        metric,
        baseline_value,
        current_value: stored_metric_value(result, metric),
        outcome,
    }
}

proof fn lemma_some_entry_add(
    a: Seq<EntryFacts>,
    b: Seq<EntryFacts>,
    outcome: PerformanceBudgetOutcome,
)
    ensures
        some_entry(a + b, outcome) == (some_entry(a, outcome) || some_entry(b, outcome)),
{
    if some_entry(a, outcome) {
        let i = choose|i: int| 0 <= i < a.len() && (#[trigger] a[i]).outcome == outcome;
        assert((a + b)[i] == a[i]);
    }
    if some_entry(b, outcome) {
        let i = choose|i: int| 0 <= i < b.len() && (#[trigger] b[i]).outcome == outcome;
        assert((a + b)[a.len() + i] == b[i]);
    }
    if some_entry(a + b, outcome) {
        let i = choose|i: int| 0 <= i < (a + b).len() && (#[trigger] (a + b)[i]).outcome == outcome;
        if i < a.len() {
            assert(a[i] == (a + b)[i]);
        } else {
            assert(b[i - a.len()] == (a + b)[i]);
        }
    }
}

/// Puts two reports next to each other: nothing is compared where they are of different scenarios
/// or targets; otherwise each metric of each result stands next to the earlier one. `outcomes`
/// holds, for each result of the current report, how its metrics keep to what is allowed.
pub fn compare_benchmark_reports(
    baseline_path: &str,
    current_path: &str,
    baseline: &StoredBenchmarkReport,
    current: &StoredBenchmarkReport,
    outcomes: &Vec<MetricOutcomes>,
) -> (r: Result<BenchmarkReportComparison, BenchmarkReportError>)
    requires
        outcomes@.len() == current.results@.len(),
    ensures
        match r {
            Err(error) => incompatibility(*baseline, *current) is None && unsupported_target(
                current.results@,
            ) is Some && error.message@ == "current report contains unsupported target comparison '"@
                + unsupported_target(current.results@)->0 + "'"@,
            Ok(comparison) => {
                &&& comparison.baseline@ == baseline_path@
                &&& comparison.current@ == current_path@
                &&& opt_text(comparison.error) == incompatibility(*baseline, *current)
                &&& if comparison.error is Some {
                    comparison.outcome == BenchmarkReportOutcome::Failed
                        && comparison.entries@.len() == 0
                } else {
                    let entries = all_entries(
                        baseline.results@,
                        current.scenario@,
                        current.results@,
                        outcomes@,
                    );
                    unsupported_target(current.results@) is None && entry_facts(
                        comparison.entries@,
                    ) == entries && comparison.outcome == comparison_outcome(entries)
                }
            },
        },
        r matches Ok(comparison) ==> (comparison.error is Some ==> comparison.outcome is Failed),
        baseline.scenario@ != current.scenario@ ==> (r matches Ok(comparison)
            && comparison.outcome is Failed),
{
    if !same_text(baseline.scenario.as_str(), current.scenario.as_str()) {
        let message = join5(
            "incompatible benchmark reports: scenario names differ (baseline '",
            baseline.scenario.as_str(),
            "', current '",
            current.scenario.as_str(),
            "')",
        );
        return Ok(
            BenchmarkReportComparison {
                baseline: baseline_path.to_owned(),
                current: current_path.to_owned(),
                outcome: BenchmarkReportOutcome::Failed,
                error: Some(message),
                entries: Vec::new(),
            },
        );
    }
    let baseline_targets = report_target_set(baseline);
    let current_targets = report_target_set(current);
    if !same_texts(&baseline_targets, &current_targets) {
        let message = join5(
            "incompatible benchmark reports: target sets differ (baseline ",
            shown_list(&baseline_targets).as_str(),
            ", current ",
            shown_list(&current_targets).as_str(),
            ")",
        );
        return Ok(
            BenchmarkReportComparison {
                baseline: baseline_path.to_owned(),
                current: current_path.to_owned(),
                outcome: BenchmarkReportOutcome::Failed,
                error: Some(message),
                entries: Vec::new(),
            },
        );
    }
    let mut entries: Vec<BenchmarkReportComparisonEntry> = Vec::new();
    let mut failed = false;
    let mut warned = false;
    let results = &current.results;
    let scenario = current.scenario.as_str();
    let mut i: usize = 0;
    proof {
        assert(results@.skip(0) =~= results@);
        assert(results@.take(0) =~= Seq::empty());
        assert(entry_facts(entries@) =~= Seq::empty());
    }
    while i < results.len()
        invariant
            i <= results@.len(),
            results == &current.results,
            scenario@ == current.scenario@,
            outcomes@.len() == results@.len(),
            incompatibility(*baseline, *current) is None,
            unsupported_target(results@) == unsupported_target(results@.skip(i as int)),
            entry_facts(entries@) == all_entries(
                baseline.results@,
                scenario@,
                results@.take(i as int),
                outcomes@,
            ),
            failed == some_entry(entry_facts(entries@), PerformanceBudgetOutcome::Failed),
            warned == some_entry(entry_facts(entries@), PerformanceBudgetOutcome::Warning),
        decreases results@.len() - i,
    {
        let result = &results[i];
        let judged = outcomes[i];
        proof {
            assert(results@.skip(i as int)[0] == results@[i as int]);
            assert(results@.skip(i as int).skip(1) =~= results@.skip(i + 1));
            assert(results@.take(i + 1).drop_last() =~= results@.take(i as int));
            assert(results@.take(i + 1).last() == results@[i as int]);
        }
        let target = match parse_comparison(result.comparison.as_str()) {
            Some(target) => target,
            None => {
                return Err(
                    BenchmarkReportError {
                        message: join3(
                            "current report contains unsupported target comparison '",
                            result.comparison.as_str(),
                            "'",
                        ),
                    },
                );
            },
        };
        let ghost held = entry_facts(entries@);
        let ghost added = result_entries(baseline.results@, scenario@, *result, judged);
        let before = &baseline.results;
        entries.push(
            entry(before, scenario, result, target, PerformanceMetric::LatencyP50, judged.latency_p50),
        );
        entries.push(
            entry(before, scenario, result, target, PerformanceMetric::LatencyP95, judged.latency_p95),
        );
        entries.push(
            entry(before, scenario, result, target, PerformanceMetric::LatencyP99, judged.latency_p99),
        );
        entries.push(
            entry(before, scenario, result, target, PerformanceMetric::Throughput, judged.throughput),
        );
        entries.push(
            entry(before, scenario, result, target, PerformanceMetric::ErrorRate, judged.error_rate),
        );
        proof {
            assert(entry_facts(entries@) =~= held + added);
            lemma_some_entry_add(held, added, PerformanceBudgetOutcome::Failed);
            lemma_some_entry_add(held, added, PerformanceBudgetOutcome::Warning);
            assert(added[0].outcome == judged.latency_p50);
            assert(added[1].outcome == judged.latency_p95);
            assert(added[2].outcome == judged.latency_p99);
            assert(added[3].outcome == judged.throughput);
            assert(added[4].outcome == judged.error_rate);
        }
        if judged.latency_p50 == PerformanceBudgetOutcome::Failed || judged.latency_p95
            == PerformanceBudgetOutcome::Failed || judged.latency_p99
            == PerformanceBudgetOutcome::Failed || judged.throughput
            == PerformanceBudgetOutcome::Failed || judged.error_rate
            == PerformanceBudgetOutcome::Failed {
            failed = true;
        }
        if judged.latency_p50 == PerformanceBudgetOutcome::Warning || judged.latency_p95
            == PerformanceBudgetOutcome::Warning || judged.latency_p99
            == PerformanceBudgetOutcome::Warning || judged.throughput
            == PerformanceBudgetOutcome::Warning || judged.error_rate
            == PerformanceBudgetOutcome::Warning {
            warned = true;
        }
        i += 1;
    }
    assert(results@.take(i as int) =~= results@);
    let outcome = if failed {
        BenchmarkReportOutcome::Failed
    } else if warned {
        BenchmarkReportOutcome::Warning
    } else {
        BenchmarkReportOutcome::Passed
    };
    Ok(
        BenchmarkReportComparison {
            baseline: baseline_path.to_owned(),
            current: current_path.to_owned(),
            outcome,
            error: None,
            entries,
        },
    )
}

/// The members of an entry.
pub open spec fn entry_members(entry: EntryFacts) -> Seq<Seq<char>> {
    seq![
        json_member(
            "baseline_value"@,
            match entry.baseline {
                Some(value) => value,
                None => "null"@,
            },
        ),
        json_member("current_value"@, entry.current),
        json_member("metric"@, json_quoted_of(entry.metric.name())),
        json_member("outcome"@, json_quoted_of(entry.outcome.name())),
        json_member("scenario"@, json_quoted_of(entry.scenario)),
        json_member("target"@, json_quoted_of(entry.target.name())),
    ]
}

/// How an entry is written.
pub open spec fn entry_json(entry: EntryFacts) -> Seq<char> {
    json_object(entry_members(entry))
}

fn render_entry(entry: &BenchmarkReportComparisonEntry) -> (r: String)
    ensures
        r@ == entry_json(entry@),
{
    let mut members: Vec<String> = Vec::new();
    push_member(
        &mut members,
        "baseline_value",
        crate::text::opt_or(&entry.baseline_value, "null").as_str(),
    );
    push_member(&mut members, "current_value", entry.current_value.as_str());
    push_member(&mut members, "metric", json_quoted(entry.metric.as_str()).as_str());
    push_member(&mut members, "outcome", json_quoted(entry.outcome.as_str()).as_str());
    push_member(&mut members, "scenario", json_quoted(entry.scenario.as_str()).as_str());
    push_member(&mut members, "target", json_quoted(entry.target.as_str()).as_str());
    assert(texts(members@) =~= entry_members(entry@));
    object_json(&members)
}

impl BenchmarkReportComparison {
    /// What follows from the comparison.
    pub fn outcome(&self) -> (r: BenchmarkReportOutcome)
        ensures
            r == self.outcome,
    {
        self.outcome
    }

    /// The members of the comparison as it is written.
    pub open spec fn members(self) -> Seq<Seq<char>> {
        seq![
            json_member("baseline"@, json_quoted_of(self.baseline@)),
            json_member("current"@, json_quoted_of(self.current@)),
            json_member("error"@, json_optional(opt_text(self.error))),
            json_member("ok"@, json_bool(self.outcome != BenchmarkReportOutcome::Failed)),
            json_member("outcome"@, json_quoted_of(self.outcome.name())),
            json_member(
                "results"@,
                json_list(
                    entry_facts(self.entries@).map_values(|entry: EntryFacts| entry_json(entry)),
                ),
            ),
        ]
    }

    /// Writes the comparison as JSON.
    pub fn render_json(&self) -> (r: String)
        ensures
            r@ == json_object(self.members()),
    {
        let mut results: Vec<String> = Vec::new();
        let mut i: usize = 0;
        while i < self.entries.len()
            invariant
                i <= self.entries@.len(),
                results@.len() == i,
                forall|j: int|
                    0 <= j < i ==> (#[trigger] results@[j])@ == entry_json(self.entries@[j]@),
            decreases self.entries@.len() - i,
        {
            results.push(render_entry(&self.entries[i]));
            i += 1;
        }
        assert(texts(results@) =~= entry_facts(self.entries@).map_values(
            |entry: EntryFacts| entry_json(entry),
        ));
        let mut members: Vec<String> = Vec::new();
        push_member(&mut members, "baseline", json_quoted(self.baseline.as_str()).as_str());
        push_member(&mut members, "current", json_quoted(self.current.as_str()).as_str());
        push_member(&mut members, "error", optional_json(&self.error).as_str());
        push_member(
            &mut members,
            "ok",
            bool_json(self.outcome != BenchmarkReportOutcome::Failed).as_str(),
        );
        push_member(&mut members, "outcome", json_quoted(self.outcome.as_str()).as_str());
        push_member(&mut members, "results", list_json(&results).as_str());
        assert(texts(members@) =~= self.members());
        object_json(&members)
    }
}

/// The commit that a command's output names: its text without white space around it, where any is
/// left.
pub fn git_commit_of(success: bool, output: &str) -> (r: Option<String>)
    ensures
        opt_text(r) == if success && trimmed(output@).len() > 0 {
            Some(trimmed(output@))
        } else {
            None
        },
        !success ==> r is None,
{
    if !success {
        return None;
    }
    let commit = trim(output);
    if commit.as_str().is_empty() {
        None
    } else {
        Some(commit)
    }
}

/// What is said of a target: ready where it was reached; otherwise failed where it is the server
/// itself or the proxy, and passed over where it is another pooler. Only its redacted address is
/// told.
pub proof fn law_target_judged(target: TargetFacts, reachable: bool)
    ensures
        ({
            let found = validated(target, reachable);
            let needed = target.comparison is DirectPostgreSQL || target.comparison is PgKinetic;
            &&& found.availability is Ready <==> reachable
            &&& found.availability is Unavailable <==> !reachable
            &&& found.outcome is Ready <==> reachable
            &&& found.outcome is FailedRequired <==> !reachable && needed
            &&& found.outcome is SkippedOptional <==> !reachable && !needed
            &&& found.dsn == target.redacted_dsn
            &&& found.comparison == target.comparison
            &&& found.label == target.comparison.name()
        }),
{
}

/// A comparison fails where any metric does, warns where any warns and none fails, and passes
/// otherwise.
pub proof fn law_worst_metric_decides(entries: Seq<EntryFacts>)
    ensures
        comparison_outcome(entries) is Failed <==> exists|i: int|
            0 <= i < entries.len() && (#[trigger] entries[i]).outcome is Failed,
        comparison_outcome(entries) is Passed <==> forall|i: int|
            0 <= i < entries.len() ==> (#[trigger] entries[i]).outcome is Passed,
{
    if comparison_outcome(entries) is Passed {
        assert forall|i: int| 0 <= i < entries.len() implies (
        #[trigger] entries[i]).outcome is Passed by {
            if entries[i].outcome is Failed {
                assert(some_entry(entries, PerformanceBudgetOutcome::Failed));
            }
            if entries[i].outcome is Warning {
                assert(some_entry(entries, PerformanceBudgetOutcome::Warning));
            }
        }
    }
    if exists|i: int| 0 <= i < entries.len() && (#[trigger] entries[i]).outcome is Failed {
        let i = choose|i: int| 0 <= i < entries.len() && (#[trigger] entries[i]).outcome is Failed;
        assert(entries[i].outcome == PerformanceBudgetOutcome::Failed);
    }
}

/// Each result is compared in five metrics, each with its own values and its own judgement.
pub proof fn law_metrics_compared(
    baseline: Seq<StoredBenchmarkResult>,
    scenario: Seq<char>,
    result: StoredBenchmarkResult,
    outcomes: MetricOutcomes,
)
    ensures
        ({
            let entries = result_entries(baseline, scenario, result, outcomes);
            &&& entries.len() == 5
            &&& entries[0].metric is LatencyP50 && entries[0].current == result.p50_ms@
                && entries[0].outcome == outcomes.latency_p50
            &&& entries[1].metric is LatencyP95 && entries[1].current == result.p95_ms@
                && entries[1].outcome == outcomes.latency_p95
            &&& entries[2].metric is LatencyP99 && entries[2].current == result.p99_ms@
                && entries[2].outcome == outcomes.latency_p99
            &&& entries[3].metric is Throughput && entries[3].current == result.throughput_qps@
                && entries[3].outcome == outcomes.throughput
            &&& entries[4].metric is ErrorRate && entries[4].current == result.error_rate@
                && entries[4].outcome == outcomes.error_rate
            &&& forall|i: int| 0 <= i < 5 ==> (#[trigger] entries[i]).scenario == scenario
        }),
{
}

/// A result is held against the first earlier one of the same target, metric by metric; without one
/// there is nothing to hold it against.
pub proof fn law_held_against_the_same_target(
    baseline: Seq<StoredBenchmarkResult>,
    scenario: Seq<char>,
    result: StoredBenchmarkResult,
    outcomes: MetricOutcomes,
    i: int,
)
    requires
        0 <= i < baseline.len(),
        baseline[i].comparison@ == result.comparison@,
        forall|j: int| 0 <= j < i ==> (#[trigger] baseline[j]).comparison@ != result.comparison@,
    ensures
        ({
            let entries = result_entries(baseline, scenario, result, outcomes);
            &&& entries[0].baseline == Some(baseline[i].p50_ms@)
            &&& entries[1].baseline == Some(baseline[i].p95_ms@)
            &&& entries[2].baseline == Some(baseline[i].p99_ms@)
            &&& entries[3].baseline == Some(baseline[i].throughput_qps@)
            &&& entries[4].baseline == Some(baseline[i].error_rate@)
        }),
{
    lemma_result_of_first(baseline, result.comparison@, i);
}

proof fn lemma_result_of_first(results: Seq<StoredBenchmarkResult>, comparison: Seq<char>, i: int)
    requires
        0 <= i < results.len(),
        results[i].comparison@ == comparison,
        forall|j: int| 0 <= j < i ==> (#[trigger] results[j]).comparison@ != comparison,
    ensures
        result_of(results, comparison) == Some(results[i]),
    decreases results.len(),
{
    if i > 0 {
        let rest = results.skip(1);
        assert(results[0].comparison@ != comparison);
        assert(rest[i - 1] == results[i]);
        assert forall|j: int| 0 <= j < i - 1 implies (#[trigger] rest[j]).comparison@
            != comparison by {
            assert(rest[j] == results[j + 1]);
        }
        lemma_result_of_first(rest, comparison, i - 1);
    }
}

/// Reports that can be compared are of the same scenario and of the same targets, as often as each
/// comes.
pub proof fn law_compared_reports_match(
    baseline: StoredBenchmarkReport,
    current: StoredBenchmarkReport,
)
    requires
        incompatibility(baseline, current) is None,
    ensures
        baseline.scenario@ == current.scenario@,
        compared(baseline.results@).to_multiset() == compared(current.results@).to_multiset(),
{
    crate::order::law_sorted_keeps_texts(compared(baseline.results@));
    crate::order::law_sorted_keeps_texts(compared(current.results@));
}

/// A report of the same scenario with the same targets in the same order can always be compared,
/// and one of another scenario never.
pub proof fn law_same_targets_compare(
    baseline: StoredBenchmarkReport,
    current: StoredBenchmarkReport,
)
    ensures
        baseline.scenario@ == current.scenario@ && compared(baseline.results@) == compared(
            current.results@,
        ) ==> incompatibility(baseline, current) is None,
        baseline.scenario@ != current.scenario@ ==> incompatibility(baseline, current) is Some,
{
}

/// A target's address is never told, only its redacted form: targets that differ in nothing else
/// are written the same.
pub proof fn law_address_is_not_told(a: BenchmarkTarget, b: BenchmarkTarget)
    requires
        a.comparison == b.comparison,
        a.redacted_dsn@ == b.redacted_dsn@,
        a.label@ == b.label@,
    ensures
        target_members(a) == target_members(b),
{
}

/// Each number that was measured is written under its own name, as it was measured.
pub proof fn law_measures_written_by_name(metrics: BenchmarkMetric)
    ensures
        metric_members(metrics).contains("\"p50_ms\":"@ + metrics.p50_ms.exact@),
        metric_members(metrics).contains("\"p95_ms\":"@ + metrics.p95_ms.exact@),
        metric_members(metrics).contains("\"p99_ms\":"@ + metrics.p99_ms.exact@),
        metric_members(metrics).contains("\"throughput_qps\":"@ + metrics.throughput_qps.exact@),
        metric_members(metrics).contains("\"error_rate\":"@ + metrics.error_rate.exact@),
        metric_members(metrics).len() == 7,
{
    let all = metric_members(metrics);
    reveal_strlit("\"");
    reveal_strlit("\":");
    reveal_strlit("\"p50_ms\":");
    reveal_strlit("p50_ms");
    reveal_strlit("\"p95_ms\":");
    reveal_strlit("p95_ms");
    reveal_strlit("\"p99_ms\":");
    reveal_strlit("p99_ms");
    reveal_strlit("\"throughput_qps\":");
    reveal_strlit("throughput_qps");
    reveal_strlit("\"error_rate\":");
    reveal_strlit("error_rate");
    assert(all[3] =~= "\"p50_ms\":"@ + metrics.p50_ms.exact@);
    assert(all[4] =~= "\"p95_ms\":"@ + metrics.p95_ms.exact@);
    assert(all[5] =~= "\"p99_ms\":"@ + metrics.p99_ms.exact@);
    assert(all[6] =~= "\"throughput_qps\":"@ + metrics.throughput_qps.exact@);
    assert(all[1] =~= "\"error_rate\":"@ + metrics.error_rate.exact@);
}

/// A target is measured under its own name.
pub proof fn law_target_measured_as_itself(comparison: BenchmarkComparison)
    ensures
        measured(comparison) is DirectPostgres <==> comparison is DirectPostgreSQL,
        measured(comparison) is PgBouncer <==> comparison is PgBouncer,
        measured(comparison) is PgDog <==> comparison is PgDog,
        measured(comparison) is PgKinetic <==> comparison is PgKinetic,
{
}

/// How much of a process is known: all of it, none of it, or some.
pub proof fn law_known_extent(unknown: nat, total: nat)
    requires
        unknown <= total,
        total > 0,
    ensures
        collection_status(unknown, total) is Complete <==> unknown == 0,
        collection_status(unknown, total) is Unavailable <==> unknown == total,
        collection_status(unknown, total) is Partial <==> 0 < unknown < total,
{
}

/// A warm-up is as long as its own section says, else as its field says, else five seconds.
pub proof fn law_warmup_of_document(document: BenchmarkScenarioDocument)
    ensures
        document.warmup matches Some(ms) ==> warmup_of(document) == ms,
        document.warmup is None && document.warmup_ms is Some ==> warmup_of(document)
            == document.warmup_ms->0,
        document.warmup is None && document.warmup_ms is None ==> warmup_of(document) == 5_000,
{
}

/// A document is refused exactly where its driver or its workload is not known, it has no targets,
/// or something is wrong with one of its parts.
pub proof fn law_scenario_taken_exactly_where(
    document: BenchmarkScenarioDocument,
    vocabulary: BenchmarkVocabulary,
    checks: ScenarioChecks,
)
    ensures
        scenario_complaint(document, vocabulary, checks) is None <==> {
            &&& texts(vocabulary.drivers@).contains(document.driver@)
            &&& document.workload@.len() == 0 || texts(vocabulary.workloads@).contains(
                document.workload@,
            )
            &&& document.target_matrix is Some
            &&& targets_complaint(document.target_matrix->0@, checks.targets@) is None
            &&& document.connections is None || checks.connections is None
            &&& document.expected_metrics is None || checks.expected_metrics is None
            &&& checks.warmup is None
            &&& checks.matrix is None
            &&& checks.scenario is None
        },
{
}

/// Targets are taken exactly where each names something that is known and nothing is wrong with it.
pub proof fn law_targets_taken_exactly_where(
    documents: Seq<BenchmarkTargetDocument>,
    checks: Seq<TargetCheck>,
)
    requires
        documents.len() <= checks.len(),
    ensures
        targets_complaint(documents, checks) is None <==> forall|i: int|
            0 <= i < documents.len() ==> comparison_named((#[trigger] documents[i]).comparison@)
                is Some && checks[i].refusal is None,
    decreases documents.len(),
{
    if documents.len() > 0 {
        let front = documents.drop_last();
        law_targets_taken_exactly_where(front, checks);
        assert(forall|i: int| 0 <= i < front.len() ==> (#[trigger] front[i]) == documents[i]);
        if targets_complaint(documents, checks) is None {
            assert forall|i: int| 0 <= i < documents.len() implies comparison_named(
                (#[trigger] documents[i]).comparison@,
            ) is Some && checks[i].refusal is None by {
                if i < front.len() {
                    assert(front[i] == documents[i]);
                }
            }
        } else if forall|i: int|
            0 <= i < documents.len() ==> comparison_named((#[trigger] documents[i]).comparison@)
                is Some && checks[i].refusal is None {
            assert forall|i: int| 0 <= i < front.len() implies comparison_named(
                (#[trigger] front[i]).comparison@,
            ) is Some && checks[i].refusal is None by {
                assert(front[i] == documents[i]);
            }
            assert(comparison_named(documents[documents.len() - 1].comparison@) is Some);
        }
    }
}

/// The time that a process has used is the sum of its twelfth and thirteenth numbers behind the last
/// bracket, where both can be read and the sum fits.
pub proof fn law_ticks_of_process(contents: Seq<char>, at: int)
    requires
        last_place(contents, ") "@, contents.len() as int) == Some(at),
    ensures
        ({
            let words = words_of(contents.skip(at + 2));
            &&& words.len() < 13 ==> cpu_ticks(contents) is None
            &&& words.len() >= 13 ==> match (
                read_unsigned(words[11], u64::MAX as nat),
                read_unsigned(words[12], u64::MAX as nat),
            ) {
                (Ok(user), Ok(system)) => cpu_ticks(contents) == if user + system <= u64::MAX {
                    Some((user + system) as nat)
                } else {
                    None::<nat>
                },
                _ => cpu_ticks(contents) is None,
            }
        }),
{
}

/// The memory of a process is the first number of the first line that begins with `VmRSS:` and
/// holds one.
pub proof fn law_memory_of_process(lines: Seq<Seq<char>>)
    requires
        lines.len() > 0,
    ensures
        line_memory(lines[0]) is Some ==> reported_memory(lines) == line_memory(lines[0]),
        line_memory(lines[0]) is None ==> reported_memory(lines) == reported_memory(lines.skip(1)),
        line_memory(lines[0]) is Some ==> crate::text::has_prefix(lines[0], "VmRSS:"@),
{
}

/// A target's address is the host and the port of its DSN; a host in brackets is told without them.
pub proof fn law_endpoint_parts(text: Seq<char>, host: Seq<char>, port: u16)
    requires
        host_and_port(text) == Some((host, port)),
    ensures
        text.len() > 0 && text[0] == '[' && text.contains(']') ==> exists|rest: Seq<char>|
            #[trigger] port_of(rest) == Some(port) && text == seq!['['] + host + seq![']', ':']
                + rest,
        !text.contains(']') ==> exists|rest: Seq<char>|
            #[trigger] port_of(rest) == Some(port) && text == host + seq![':'] + rest,
{
    crate::text::law_first_index(text, ']');
    let bracket = index_of(text, ']');
    if bracket < text.len() {
        let rest = text.skip(bracket + 2);
        assert(text.contains(']'));
        assert(text =~= seq!['['] + text.subrange(1, bracket) + seq![']', ':'] + rest);
        assert(port_of(rest) == Some(port));
    } else {
        crate::text::law_last_place(text, ":"@, text.len() as int);
        let at = last_place(text, ":"@, text.len() as int)->0;
        reveal_strlit(":");
        let rest = text.skip(at + 1);
        assert(text.subrange(at, at + 1)[0] == ':');
        assert(text =~= text.take(at) + seq![':'] + rest);
        assert(port_of(rest) == Some(port));
        if text.contains(']') {
            let k = choose|k: int| 0 <= k < text.len() && text[k] == ']';
            assert(text[k] != ']');
        }
    }
}

} // verus!
