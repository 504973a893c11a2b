//! Requests, limits, stage results and the status taxonomy.
use vstd::prelude::*;
use crate::text::{trim_spec, trimmed_eq, copy_string, copy_opt_string};

verus! {

/// Default memory limit of a stage: 512 MiB.
pub const DEFAULT_MEMORY_LIMIT: u64 = 536870912;
/// Default process-count limit.
pub const DEFAULT_PID_LIMIT: u64 = 256;
/// Default open-file limit.
pub const DEFAULT_FILE_LIMIT: u64 = 2048;
/// Default wall-clock limit of a run stage, in milliseconds.
pub const DEFAULT_RUN_TIMEOUT_MS: u64 = 3000;
/// Default wall-clock limit of a compile stage, in milliseconds.
pub const DEFAULT_COMPILE_TIMEOUT_MS: u64 = 10000;
/// Default cap on each captured output stream, in bytes.
pub const DEFAULT_OUTPUT_LIMIT: u64 = 1024;

/// The outcome class of one stage.
#[derive(Clone, Copy, Debug, PartialEq, Eq, Structural)]
pub enum StageStatus {
    Pending,
    Running,
    Success,
    RuntimeError,
    CompilationError,
    TimeLimitExceeded,
    MemoryLimitExceeded,
    OutputLimitExceeded,
}

/// The wire name of a status, in SCREAMING_SNAKE_CASE.
pub open spec fn wire_name_spec(s: StageStatus) -> Seq<char> {
    match s {
        StageStatus::Pending => "PENDING"@,
        StageStatus::Running => "RUNNING"@,
        StageStatus::Success => "SUCCESS"@,
        StageStatus::RuntimeError => "RUNTIME_ERROR"@,
        StageStatus::CompilationError => "COMPILATION_ERROR"@,
        StageStatus::TimeLimitExceeded => "TIME_LIMIT_EXCEEDED"@,
        StageStatus::MemoryLimitExceeded => "MEMORY_LIMIT_EXCEEDED"@,
        StageStatus::OutputLimitExceeded => "OUTPUT_LIMIT_EXCEEDED"@,
    }
}

impl StageStatus {
    /// The wire name of the status, in SCREAMING_SNAKE_CASE.
    pub fn wire_name(&self) -> (r: &'static str)
        ensures
            r@ == wire_name_spec(*self),
    {
        match self {
            StageStatus::Pending => "PENDING",
            StageStatus::Running => "RUNNING",
            StageStatus::Success => "SUCCESS",
            StageStatus::RuntimeError => "RUNTIME_ERROR",
            StageStatus::CompilationError => "COMPILATION_ERROR",
            StageStatus::TimeLimitExceeded => "TIME_LIMIT_EXCEEDED",
            StageStatus::MemoryLimitExceeded => "MEMORY_LIMIT_EXCEEDED",
            StageStatus::OutputLimitExceeded => "OUTPUT_LIMIT_EXCEEDED",
        }
    }
}

/// What the sandbox enforces on one stage.
#[derive(Clone, Copy, Debug, PartialEq, Eq, Structural)]
pub struct ExecutionLimits {
    pub memory_limit_bytes: u64,
    pub pid_limit: u64,
    pub file_limit: u64,
    pub timeout_ms: u64,
    pub output_limit_bytes: u64,
    pub uid: Option<u32>,
    pub gid: Option<u32>,
}

impl ExecutionLimits {
    /// The limits used when a request gives none.
    pub open spec fn default_spec() -> ExecutionLimits {
        ExecutionLimits {
            memory_limit_bytes: DEFAULT_MEMORY_LIMIT,
            pid_limit: DEFAULT_PID_LIMIT,
            file_limit: DEFAULT_FILE_LIMIT,
            timeout_ms: DEFAULT_RUN_TIMEOUT_MS,
            output_limit_bytes: DEFAULT_OUTPUT_LIMIT,
            uid: None,
            gid: None,
        }
    }

    /// The default limits with the given wall-clock and memory limits.
    pub fn with_time_and_memory(timeout_ms: u64, memory_limit_bytes: u64) -> (r: ExecutionLimits)
        ensures
            r == (ExecutionLimits { timeout_ms, memory_limit_bytes, ..ExecutionLimits::default_spec() }),
    {
        ExecutionLimits {
            memory_limit_bytes,
            pid_limit: DEFAULT_PID_LIMIT,
            file_limit: DEFAULT_FILE_LIMIT,
            timeout_ms,
            output_limit_bytes: DEFAULT_OUTPUT_LIMIT,
            uid: None,
            gid: None,
        }
    }
}

impl Default for ExecutionLimits {
    fn default() -> (r: ExecutionLimits)
        ensures
            r == ExecutionLimits::default_spec(),
    {
        ExecutionLimits::with_time_and_memory(DEFAULT_RUN_TIMEOUT_MS, DEFAULT_MEMORY_LIMIT)
    }
}

/// The result of one stage (compile, run, or one testcase run).
#[derive(Clone, Debug)]
pub struct StageResult {
    pub status: StageStatus,
    pub stdout: String,
    pub stderr: String,
    pub exit_code: Option<i32>,
    pub signal: Option<String>,
    pub memory_usage: Option<u64>,
    pub cpu_time: Option<u64>,
    pub execution_time: Option<u64>,
}

/// Whether two stage results hold the same values.
pub open spec fn same_stage(a: StageResult, b: StageResult) -> bool {
    &&& a.status == b.status
    &&& a.stdout@ == b.stdout@
    &&& a.stderr@ == b.stderr@
    &&& a.exit_code == b.exit_code
    &&& (a.signal is Some <==> b.signal is Some)
    &&& (a.signal is Some ==> a.signal->0@ == b.signal->0@)
    &&& a.memory_usage == b.memory_usage
    &&& a.cpu_time == b.cpu_time
    &&& a.execution_time == b.execution_time
}

/// Whether `r` is a synthetic stage result: the given status and streams, nothing measured.
pub open spec fn is_synthetic(r: StageResult, status: StageStatus, stdout: Seq<char>, stderr: Seq<char>) -> bool {
    &&& r.status == status
    &&& r.stdout@ == stdout
    &&& r.stderr@ == stderr
    &&& r.exit_code is None
    &&& r.signal is None
    &&& r.memory_usage is None
    &&& r.cpu_time is None
    &&& r.execution_time is None
}

impl StageResult {
    /// A copy of this result.
    pub fn duplicate(&self) -> (r: StageResult)
        ensures
            same_stage(r, *self),
    {
        StageResult {
            status: self.status,
            stdout: copy_string(&self.stdout),
            stderr: copy_string(&self.stderr),
            exit_code: self.exit_code,
            signal: copy_opt_string(&self.signal),
            memory_usage: self.memory_usage,
            cpu_time: self.cpu_time,
            execution_time: self.execution_time,
        }
    }

    /// A stage result with the given status and streams, and nothing measured.
    pub fn synthetic(status: StageStatus, stdout: String, stderr: String) -> (r: StageResult)
        ensures
            is_synthetic(r, status, stdout@, stderr@),
    {
        StageResult {
            status,
            stdout,
            stderr,
            exit_code: None,
            signal: None,
            memory_usage: None,
            cpu_time: None,
            execution_time: None,
        }
    }
}

/// A stage result that has not run yet: `Pending`, empty streams, nothing measured.
pub fn stub_result() -> (r: StageResult)
    ensures
        is_synthetic(r, StageStatus::Pending, Seq::empty(), Seq::empty()),
{
    StageResult::synthetic(StageStatus::Pending, String::new(), String::new())
}

/// One source file of a request.
#[derive(Clone, Debug)]
pub struct FileRequest {
    pub name: Option<String>,
    pub content: String,
    pub encoding: Option<String>,
}

/// One input of a testcase batch.
#[derive(Clone, Debug)]
pub struct Testcase {
    pub id: String,
    pub input: String,
    pub expected_output: Option<String>,
}

/// A submitted unit of work.
#[derive(Clone, Debug)]
pub struct JobRequest {
    pub language: String,
    pub version: Option<String>,
    pub files: Vec<FileRequest>,
    pub testcases: Option<Vec<Testcase>>,
    pub args: Option<Vec<String>>,
    pub stdin: Option<String>,
    pub run_timeout: Option<u64>,
    pub compile_timeout: Option<u64>,
    pub run_memory_limit: Option<u64>,
    pub compile_memory_limit: Option<u64>,
}

/// A request with the identifier it was queued under.
#[derive(Clone, Debug)]
pub struct Job {
    pub id: String,
    pub request: JobRequest,
}

/// The result of one testcase of a batch.
#[derive(Clone, Debug)]
pub struct TestcaseResult {
    pub id: String,
    pub passed: bool,
    pub actual_output: String,
    pub run_details: StageResult,
}

/// Whether a testcase passes: its run succeeded and, where an output is
/// expected, the actual output equals it once both are trimmed.
pub open spec fn passes(status: StageStatus, actual: Seq<char>, expected: Option<Seq<char>>) -> bool {
    status == StageStatus::Success && (expected is None || trim_spec(actual) == trim_spec(
        expected->0,
    ))
}

/// Builds the result of testcase `id` from its run.
pub fn testcase_result(id: String, expected: &Option<String>, run: StageResult) -> (r: TestcaseResult)
    ensures
        r.id@ == id@,
        r.passed == passes(
            run.status,
            run.stdout@,
            match expected {
                Some(e) => Some(e@),
                None => None,
            },
        ),
        r.actual_output@ == run.stdout@,
        same_stage(r.run_details, run),
{
    let passed = match expected {
        Some(e) => run.status == StageStatus::Success && trimmed_eq(run.stdout.as_str(), e.as_str()),
        None => run.status == StageStatus::Success,
    };
    let actual_output = copy_string(&run.stdout);
    TestcaseResult { id, passed, actual_output, run_details: run }
}

/// The result of a job.
#[derive(Clone, Debug)]
pub struct JobResult {
    pub language: String,
    pub version: String,
    pub run: Option<StageResult>,
    pub compile: Option<StageResult>,
    pub testcases: Option<Vec<TestcaseResult>>,
}

/// An installed runtime as the metadata store lists it.
#[derive(Clone, Debug)]
pub struct Runtime {
    pub language: String,
    pub version: String,
    pub aliases: Vec<String>,
    pub runtime: Option<String>,
}

/// A package as the metadata store lists it.
#[derive(Clone, Debug)]
pub struct Package {
    pub language: String,
    pub language_version: String,
    pub installed: bool,
}

/// A unit of measure for a figure in a stage summary: the figure is divided
/// by `divisor` and shown with `unit`.
pub struct Scale {
    pub divisor: u64,
    pub unit: &'static str,
}

/// The scale for a memory figure in bytes: GB above 1 GiB, MB above 1 MiB,
/// KB above 1 KiB, else B.
pub fn memory_scale(bytes: u64) -> (r: Scale)
    ensures
        r.divisor == (if bytes > 1073741824 {
            1073741824u64
        } else if bytes > 1048576 {
            1048576u64
        } else if bytes > 1024 {
            1024u64
        } else {
            1u64
        }),
        r.unit@ == (if bytes > 1073741824 {
            "GB"@
        } else if bytes > 1048576 {
            "MB"@
        } else if bytes > 1024 {
            "KB"@
        } else {
            "B"@
        }),
{
    if bytes > 1073741824 {
        Scale { divisor: 1073741824, unit: "GB" }
    } else if bytes > 1048576 {
        Scale { divisor: 1048576, unit: "MB" }
    } else if bytes > 1024 {
        Scale { divisor: 1024, unit: "KB" }
    } else {
        Scale { divisor: 1, unit: "B" }
    }
}

/// The scale for a CPU time in microseconds: s above one second, ms above
/// one millisecond, else µs.
pub fn cpu_scale(usec: u64) -> (r: Scale)
    ensures
        r.divisor == (if usec > 1000000 {
            1000000u64
        } else if usec > 1000 {
            1000u64
        } else {
            1u64
        }),
        r.unit@ == (if usec > 1000000 {
            "s"@
        } else if usec > 1000 {
            "ms"@
        } else {
            "\u{b5}s"@
        }),
{
    if usec > 1000000 {
        Scale { divisor: 1000000, unit: "s" }
    } else if usec > 1000 {
        Scale { divisor: 1000, unit: "ms" }
    } else {
        Scale { divisor: 1, unit: "\u{b5}s" }
    }
}

/// The scale for a wall time in milliseconds: s above one second, else ms.
pub fn wall_scale(ms: u64) -> (r: Scale)
    ensures
        r.divisor == (if ms > 1000 {
            1000u64
        } else {
            1u64
        }),
        r.unit@ == (if ms > 1000 {
            "s"@
        } else {
            "ms"@
        }),
{
    if ms > 1000 {
        Scale { divisor: 1000, unit: "s" }
    } else {
        Scale { divisor: 1, unit: "ms" }
    }
}

} // verus!
