//! The worker's handling of one job, as a state machine: each step takes the
//! outcome of the previous action and names the next action (create the
//! scratch directory, write files, check the runtime, compile through the
//! cache, run once or per testcase, clean up) until the job's result is ready.
use vstd::prelude::*;
use crate::models::{
    ExecutionLimits, Job, JobRequest, JobResult, StageResult, StageStatus, TestcaseResult,
    is_synthetic, passes, same_stage, testcase_result, DEFAULT_COMPILE_TIMEOUT_MS,
    DEFAULT_MEMORY_LIMIT, DEFAULT_RUN_TIMEOUT_MS,
};
use crate::cache::{cache_key, cache_key_spec, file_name, utf8, version_or_latest};
use crate::encoding::{file_bytes, file_bytes_spec};
use crate::package::{is_latest, is_version, resolve_version};
use crate::text::{concat2, concat3, copy_string, join_path, join_spec};

verus! {

/// What came of the last action.
pub enum JobEvent {
    /// The job is taken up.
    Started,
    /// The action succeeded.
    Done,
    /// The action failed, with this message.
    Failed(String),
    /// Whether the path asked about exists.
    Exists(bool),
    /// The text of the file asked for.
    Text(String),
    /// The stage that was run ended with this result.
    Stage(StageResult),
    /// The names of the subdirectories of the directory asked about.
    Names(Vec<String>),
}

/// The next thing the driver must do.
pub enum JobAction {
    /// Create this directory and its parents.
    CreateDir(String),
    /// Write these bytes to this file.
    WriteFile { path: String, content: Vec<u8> },
    /// Report whether this path exists.
    CheckExists(String),
    /// Report the names of this directory's subdirectories.
    ListDirs(String),
    /// Read and parse the `package.yaml` of this runtime directory.
    LoadPackage(String),
    /// Set up the sandbox of this job.
    InitSandbox(String),
    /// Read this file as text.
    ReadText(String),
    /// Materialise the cache entry into the directory (hard links, copy as fallback), then touch it.
    RestoreCache { entry: String, dir: String },
    /// Copy the directory into the cache entry, then touch it.
    StoreCache { dir: String, entry: String },
    /// Run `cmd args` in the sandbox of job `id` under `limits`.
    Run { id: String, cmd: String, args: Vec<String>, limits: ExecutionLimits },
    /// Tear down the sandbox of this job.
    CleanupSandbox(String),
    /// Remove this directory and everything in it.
    RemoveDir(String),
    /// Publish this result; the job is over.
    Finish(JobResult),
    /// Nothing is left to do.
    Idle,
}

/// Where the handling of a job stands: which action's outcome it waits for.
#[derive(Clone, Copy, Debug, PartialEq, Eq, Structural)]
pub enum JobPhase {
    Start,
    MakingDir,
    WritingFile(usize),
    ListingVersions,
    CheckingRuntime,
    LoadingPackage,
    InitializingSandbox,
    CheckingCompileScript,
    ReadingCompileScript,
    CheckingCache,
    Restoring,
    Compiling,
    Storing,
    CheckingRunScript,
    WritingInput(usize),
    RunningCase(usize),
    WritingStdin,
    RunningSingle,
    CleaningUp,
    RemovingDir,
    Finished,
}

/// The handling of one job.
pub struct JobRun {
    pub job: Job,
    /// The job's scratch directory.
    pub temp_dir: String,
    /// The directory of the runtime the job asks for.
    pub runtime_dir: String,
    /// The directory that holds the versions of the job's language.
    pub lang_dir: String,
    /// The runtime version the job runs on, once resolved.
    pub version: String,
    /// The root of the compile cache.
    pub cache_dir: String,
    pub phase: JobPhase,
    /// The cache entry of this job, once its key is known.
    pub cache_entry: Option<String>,
    pub compile: Option<StageResult>,
    pub cases: Vec<TestcaseResult>,
    /// Whether the sandbox was set up, so that it must be torn down.
    pub sandbox_ready: bool,
    /// The result, once it is decided.
    pub outcome: Option<JobResult>,
}

/// The runtime directory of a request: `<runtimes>/<language>/<version or latest>`.
pub open spec fn runtime_dir_spec(runtimes_dir: Seq<char>, r: JobRequest) -> Seq<char> {
    join_spec(join_spec(runtimes_dir, r.language@), version_or_latest(r))
}

/// The scratch directory of a job: `<temp>/turbo-<user>/<id>`.
pub open spec fn temp_dir_spec(system_temp: Seq<char>, user: Seq<char>, id: Seq<char>) -> Seq<char> {
    join_spec(join_spec(system_temp, "turbo-"@ + user), id)
}

/// The root of the compile cache: `<temp>/turbo-cache-<user>`.
pub open spec fn cache_root_spec(system_temp: Seq<char>, user: Seq<char>) -> Seq<char> {
    join_spec(system_temp, "turbo-cache-"@ + user)
}

/// ` "<w>"` for each word, concatenated.
pub open spec fn quoted_words(words: Seq<Seq<char>>) -> Seq<char>
    decreases words.len(),
{
    if words.len() == 0 {
        Seq::empty()
    } else {
        quoted_words(words.drop_last()) + " \""@ + words.last() + "\""@
    }
}

/// The names the files of a request are written under, in request order.
pub open spec fn file_names(r: JobRequest) -> Seq<Seq<char>> {
    r.files@.map_values(|f: crate::models::FileRequest| file_name(f))
}

/// The request's run arguments.
pub open spec fn arg_words(r: JobRequest) -> Seq<Seq<char>> {
    match r.args {
        Some(a) => a@.map_values(|s: String| s@),
        None => Seq::empty(),
    }
}

/// The shell line of the compile stage: `cd <dir> && <script> "<file>"...`.
pub open spec fn compile_line(dir: Seq<char>, script: Seq<char>, r: JobRequest) -> Seq<char> {
    "cd "@ + dir + " && "@ + script + quoted_words(file_names(r))
}

/// The shell line of a run: `cd <dir> && <script> < <input> "<arg>"...`.
pub open spec fn run_line(dir: Seq<char>, script: Seq<char>, input: Seq<char>, r: JobRequest) -> Seq<char> {
    "cd "@ + dir + " && "@ + script + " < "@ + input + quoted_words(arg_words(r))
}

/// The limits of the compile stage: the request's, else the defaults.
pub open spec fn compile_limits_spec(r: JobRequest) -> ExecutionLimits {
    ExecutionLimits {
        timeout_ms: match r.compile_timeout {
            Some(t) => t,
            None => DEFAULT_COMPILE_TIMEOUT_MS,
        },
        memory_limit_bytes: match r.compile_memory_limit {
            Some(m) => m,
            None => DEFAULT_MEMORY_LIMIT,
        },
        ..ExecutionLimits::default_spec()
    }
}

/// The limits of a run stage: the request's, else the defaults.
pub open spec fn run_limits_spec(r: JobRequest) -> ExecutionLimits {
    ExecutionLimits {
        timeout_ms: match r.run_timeout {
            Some(t) => t,
            None => DEFAULT_RUN_TIMEOUT_MS,
        },
        memory_limit_bytes: match r.run_memory_limit {
            Some(m) => m,
            None => DEFAULT_MEMORY_LIMIT,
        },
        ..ExecutionLimits::default_spec()
    }
}

/// Whether `a` runs the shell line `line` in the sandbox of `id` under `limits`.
pub open spec fn runs_shell(a: JobAction, id: Seq<char>, line: Seq<char>, limits: ExecutionLimits) -> bool {
    a matches JobAction::Run { id: i, cmd, args, limits: l } && i@ == id && cmd@ == "sh"@
        && args@.len() == 2 && args@[0]@ == "-c"@ && args@[1]@ == line && l == limits
}

/// Whether `a` asks whether `p` exists.
pub open spec fn asks_exists(a: JobAction, p: Seq<char>) -> bool {
    a matches JobAction::CheckExists(q) && q@ == p
}

/// Whether `a` lists the subdirectories of `d`.
pub open spec fn lists_dirs(a: JobAction, d: Seq<char>) -> bool {
    a matches JobAction::ListDirs(q) && q@ == d
}

/// Whether a request leaves its version to be resolved: none, or `latest`.
pub open spec fn asks_latest(r: JobRequest) -> bool {
    r.version is None || r.version->0@ == "latest"@
}

/// Whether `a` writes `content` to `path`.
pub open spec fn writes(a: JobAction, path: Seq<char>, content: Seq<u8>) -> bool {
    a matches JobAction::WriteFile { path: p, content: c } && p@ == path && c@ == content
}

/// Whether `a` removes the directory `d`.
pub open spec fn removes(a: JobAction, d: Seq<char>) -> bool {
    a matches JobAction::RemoveDir(q) && q@ == d
}

/// Whether `a` tears down the sandbox of job `id`.
pub open spec fn cleans_up(a: JobAction, id: Seq<char>) -> bool {
    a matches JobAction::CleanupSandbox(q) && q@ == id
}

/// Whether `a` creates, loads, reads or sets up the target `p` (a path, or a job id for the sandbox).
pub open spec fn names_path(a: JobAction, p: Seq<char>) -> bool {
    match a {
        JobAction::CreateDir(q) => q@ == p,
        JobAction::LoadPackage(q) => q@ == p,
        JobAction::InitSandbox(q) => q@ == p,
        JobAction::ReadText(q) => q@ == p,
        _ => false,
    }
}

/// Whether `a` moves between the cache entry `entry` and the directory `dir`.
pub open spec fn moves_cache(a: JobAction, entry: Seq<char>, dir: Seq<char>) -> bool {
    match a {
        JobAction::RestoreCache { entry: e, dir: d } => e@ == entry && d@ == dir,
        JobAction::StoreCache { dir: d, entry: e } => e@ == entry && d@ == dir,
        _ => false,
    }
}

/// The message an event carries when it is not the success a phase waits for.
pub open spec fn failure_text(e: JobEvent) -> Seq<char> {
    match e {
        JobEvent::Failed(m) => m@,
        _ => "unexpected event"@,
    }
}

/// Whether `r` is the result of a job that failed with `message` before its
/// run: the resolved language and version, a synthetic `RuntimeError` run
/// whose stderr is the message, and nothing else.
pub open spec fn is_failure(r: JobResult, language: Seq<char>, version: Seq<char>, message: Seq<char>) -> bool {
    &&& r.language@ == language
    &&& r.version@ == version
    &&& r.run is Some
    &&& is_synthetic(r.run->0, StageStatus::RuntimeError, Seq::empty(), message)
    &&& r.compile is None
    &&& r.testcases is None
}

/// Whether `r` carries the request's language and resolved version.
pub open spec fn names_runtime(r: JobResult, run: JobRun) -> bool {
    r.language@ == run.job.request.language@ && r.version@ == run.version@
}

/// Whether optional stage results agree.
pub open spec fn same_opt_stage(a: Option<StageResult>, b: Option<StageResult>) -> bool {
    (a is Some <==> b is Some) && (a is Some ==> same_stage(a->0, b->0))
}

/// The input file of testcase `i`: `<dir>/input_<id>.txt`.
pub open spec fn case_input(dir: Seq<char>, r: JobRequest, i: int) -> Seq<char> {
    join_spec(dir, "input_"@ + r.testcases->0@[i].id@ + ".txt"@)
}

impl JobRun {
    /// The number of testcases of the request (0 in single-run mode).
    pub open spec fn case_count(self) -> int {
        match self.job.request.testcases {
            Some(t) => t@.len() as int,
            None => 0,
        }
    }

    /// The state's invariant.
    pub open spec fn wf(self) -> bool {
        &&& match self.phase {
            JobPhase::WritingFile(i) => i < self.job.request.files@.len(),
            JobPhase::WritingInput(i) | JobPhase::RunningCase(i) => {
                &&& self.job.request.testcases is Some
                &&& i < self.case_count()
                &&& self.cases@.len() == i
            },
            _ => true,
        }
        &&& (!(self.phase is WritingInput || self.phase is RunningCase) ==> self.cases@.len() == 0)
        &&& (self.phase == JobPhase::CheckingCache || self.phase == JobPhase::Compiling
            || self.phase == JobPhase::Storing || self.phase == JobPhase::Restoring
            ==> self.cache_entry is Some)
        &&& (self.phase == JobPhase::CleaningUp || self.phase == JobPhase::RemovingDir
            ==> self.outcome is Some)
    }

    /// Whether `new` and `a` close the job from `self` with `result`: tear
    /// down the sandbox if it was set up, else remove the scratch directory.
    pub open spec fn closes(self, new: JobRun, a: JobAction, result: JobResult) -> bool {
        &&& new.outcome == Some(result)
        &&& if self.sandbox_ready {
            new.phase == JobPhase::CleaningUp && cleans_up(a, self.job.id@)
        } else {
            new.phase == JobPhase::RemovingDir && removes(a, self.temp_dir@)
        }
    }

    /// Whether `new` and `a` close the job from `self` as failed with `message`.
    pub open spec fn fails(self, new: JobRun, a: JobAction, message: Seq<char>) -> bool {
        new.outcome is Some && is_failure(new.outcome->0, self.job.request.language@, self.version@, message)
            && self.closes(new, a, new.outcome->0)
    }

    /// Whether `a` writes file `i` of the request into the scratch directory,
    /// with `new` waiting on it.
    pub open spec fn writes_file(self, new: JobRun, a: JobAction, i: int) -> bool {
        &&& new.phase == JobPhase::WritingFile(i as usize)
        &&& writes(
            a,
            join_spec(self.temp_dir@, file_name(self.job.request.files@[i])),
            file_bytes_spec(self.job.request.files@[i])->0,
        )
    }

    /// What follows once files `0..i` are written: the next file, a failure
    /// if it cannot be decoded, or the check for the runtime.
    pub open spec fn after_files(self, new: JobRun, a: JobAction, i: int) -> bool {
        if i < self.job.request.files@.len() {
            if file_bytes_spec(self.job.request.files@[i]) is Some {
                self.writes_file(new, a, i)
            } else {
                self.fails(new, a, "Failed to decode file "@ + file_name(self.job.request.files@[i]))
            }
        } else if asks_latest(self.job.request) {
            new.phase == JobPhase::ListingVersions && a is ListDirs && lists_dirs(a, self.lang_dir@)
        } else {
            new.phase == JobPhase::CheckingRuntime && asks_exists(a, self.runtime_dir@)
        }
    }

    /// The compile stage: the shell line that runs `compile.sh` on the files.
    pub open spec fn compiles(self, new: JobRun, a: JobAction) -> bool {
        &&& new.phase == JobPhase::Compiling
        &&& runs_shell(
            a,
            self.job.id@,
            compile_line(
                self.temp_dir@,
                join_spec(self.runtime_dir@, "compile.sh"@),
                self.job.request,
            ),
            compile_limits_spec(self.job.request),
        )
    }

    /// The check for `run.sh`.
    pub open spec fn checks_run_script(self, new: JobRun, a: JobAction) -> bool {
        new.phase == JobPhase::CheckingRunScript && asks_exists(
            a,
            join_spec(self.runtime_dir@, "run.sh"@),
        )
    }

    /// The run of testcase `i`.
    pub open spec fn runs_case(self, new: JobRun, a: JobAction, i: int) -> bool {
        &&& new.phase == JobPhase::RunningCase(i as usize)
        &&& runs_shell(
            a,
            self.job.id@,
            run_line(
                self.temp_dir@,
                join_spec(self.runtime_dir@, "run.sh"@),
                case_input(self.temp_dir@, self.job.request, i),
                self.job.request,
            ),
            run_limits_spec(self.job.request),
        )
    }

    /// Writing the input of testcase `i`.
    pub open spec fn writes_input(self, new: JobRun, a: JobAction, i: int) -> bool {
        &&& new.phase == JobPhase::WritingInput(i as usize)
        &&& writes(
            a,
            case_input(self.temp_dir@, self.job.request, i),
            utf8(self.job.request.testcases->0@[i].input@),
        )
    }

    /// What one step does from `self` on `e`, giving `new` and the action `a`.
    pub open spec fn step_spec(self, e: JobEvent, new: JobRun, a: JobAction) -> bool {
        let req = self.job.request;
        match self.phase {
            JobPhase::Start => new.phase == JobPhase::MakingDir && a is CreateDir && names_path(
                a,
                self.temp_dir@,
            ),
            JobPhase::MakingDir => if e is Done {
                self.after_files(new, a, 0)
            } else {
                new.phase == JobPhase::Finished && a is Finish && is_failure(
                    a->Finish_0,
                    req.language@,
                    self.version@,
                    "Failed to create temp dir: "@ + failure_text(e),
                )
            },
            JobPhase::WritingFile(i) => if e is Done {
                self.after_files(new, a, i + 1)
            } else {
                self.fails(new, a, "Failed to write file: "@ + failure_text(e))
            },
            JobPhase::ListingVersions => match e {
                JobEvent::Names(ns) => if exists|i: int| 0 <= i < ns@.len() && is_version(#[trigger] ns@[i]@) {
                    exists|i: int| {
                        &&& is_latest(ns@, i)
                        &&& new.version@ == ns@[i]@
                        &&& new.runtime_dir@ == join_spec(self.lang_dir@, ns@[i]@)
                        &&& new.phase == JobPhase::CheckingRuntime
                        &&& asks_exists(a, new.runtime_dir@)
                    }
                } else {
                    self.fails(new, a, "Runtime not found: "@ + req.language@ + ":latest"@)
                },
                _ => self.fails(new, a, "Runtime not found: "@ + req.language@ + ":latest"@),
            },
            JobPhase::CheckingRuntime => if e == JobEvent::Exists(true) {
                new.phase == JobPhase::LoadingPackage && a is LoadPackage && names_path(
                    a,
                    self.runtime_dir@,
                )
            } else {
                self.fails(new, a, "Runtime not found at "@ + self.runtime_dir@)
            },
            JobPhase::LoadingPackage => if e is Done {
                new.phase == JobPhase::InitializingSandbox && a is InitSandbox && names_path(
                    a,
                    self.job.id@,
                )
            } else {
                self.fails(new, a, "Invalid runtime definition: "@ + failure_text(e))
            },
            JobPhase::InitializingSandbox => if e is Done {
                new.sandbox_ready && new.phase == JobPhase::CheckingCompileScript && asks_exists(
                    a,
                    join_spec(self.runtime_dir@, "compile.sh"@),
                )
            } else {
                self.fails(new, a, "Sandbox init failed: "@ + failure_text(e))
            },
            JobPhase::CheckingCompileScript => if e == JobEvent::Exists(true) {
                new.phase == JobPhase::ReadingCompileScript && a is ReadText && names_path(
                    a,
                    join_spec(self.runtime_dir@, "compile.sh"@),
                )
            } else {
                self.checks_run_script(new, a)
            },
            JobPhase::ReadingCompileScript => {
                let script = match e {
                    JobEvent::Text(t) => t@,
                    _ => Seq::empty(),
                };
                let entry = join_spec(self.cache_dir@, cache_key_spec(req, script));
                new.cache_entry is Some && new.cache_entry->0@ == entry && new.phase
                    == JobPhase::CheckingCache && asks_exists(a, entry)
            },
            JobPhase::CheckingCache => if e == JobEvent::Exists(true) {
                new.phase == JobPhase::Restoring && a is RestoreCache && moves_cache(
                    a,
                    self.cache_entry->0@,
                    self.temp_dir@,
                )
            } else {
                self.compiles(new, a)
            },
            JobPhase::Restoring => if e is Done {
                new.compile is Some && is_synthetic(
                    new.compile->0,
                    StageStatus::Success,
                    "Restored from cache"@,
                    Seq::empty(),
                ) && self.checks_run_script(new, a)
            } else {
                self.compiles(new, a)
            },
            JobPhase::Compiling => match e {
                JobEvent::Stage(res) => if res.status == StageStatus::Success {
                    same_opt_stage(new.compile, Some(res)) && new.phase == JobPhase::Storing
                        && a is StoreCache && moves_cache(a, self.cache_entry->0@, self.temp_dir@)
                } else {
                    let r = new.outcome->0;
                    new.outcome is Some && names_runtime(r, self) && r.run is None && r.testcases is None
                        && r.compile is Some && r.compile->0.status == StageStatus::CompilationError
                        && same_stage(
                        StageResult { status: res.status, ..r.compile->0 },
                        res,
                    ) && self.closes(new, a, r)
                },
                _ => self.fails(new, a, "Compile execution failed: "@ + failure_text(e)),
            },
            JobPhase::Storing => self.checks_run_script(new, a),
            JobPhase::CheckingRunScript => if e == JobEvent::Exists(true) {
                match req.testcases {
                    Some(t) => if t@.len() > 0 {
                        self.writes_input(new, a, 0)
                    } else {
                        let r = new.outcome->0;
                        new.outcome is Some && names_runtime(r, self) && same_opt_stage(
                            r.compile,
                            self.compile,
                        ) && r.run is None && r.testcases is Some && r.testcases->0@.len() == 0
                            && self.closes(new, a, r)
                    },
                    None => new.phase == JobPhase::WritingStdin && writes(
                        a,
                        join_spec(self.temp_dir@, "input.txt"@),
                        match req.stdin {
                            Some(s) => utf8(s@),
                            None => Seq::empty(),
                        },
                    ),
                }
            } else {
                self.fails(new, a, "Run script not found at "@ + join_spec(self.runtime_dir@, "run.sh"@))
            },
            JobPhase::WritingInput(i) => self.runs_case(new, a, i as int),
            JobPhase::RunningCase(i) => {
                let tc = req.testcases->0@[i as int];
                let more = i + 1 < self.case_count();
                let cs = if more {
                    new.cases@
                } else {
                    new.outcome->0.testcases->0@
                };
                let c = cs.last();
                &&& cs.len() == i + 1
                &&& cs.drop_last() == self.cases@
                &&& c.id@ == tc.id@
                &&& match e {
                    JobEvent::Stage(res) => {
                        &&& c.passed == passes(
                            res.status,
                            res.stdout@,
                            match tc.expected_output {
                                Some(x) => Some(x@),
                                None => None,
                            },
                        )
                        &&& c.actual_output@ == res.stdout@
                        &&& same_stage(c.run_details, res)
                    },
                    _ => {
                        &&& !c.passed
                        &&& c.actual_output@ == Seq::<char>::empty()
                        &&& is_synthetic(
                            c.run_details,
                            StageStatus::RuntimeError,
                            Seq::empty(),
                            "Sandbox error: "@ + failure_text(e),
                        )
                    },
                }
                &&& if more {
                    self.writes_input(new, a, i + 1)
                } else {
                    let r = new.outcome->0;
                    new.outcome is Some && names_runtime(r, self) && same_opt_stage(
                        r.compile,
                        self.compile,
                    ) && r.run is None && r.testcases is Some && self.closes(new, a, r)
                }
            },
            JobPhase::WritingStdin => new.phase == JobPhase::RunningSingle && runs_shell(
                a,
                self.job.id@,
                run_line(
                    self.temp_dir@,
                    join_spec(self.runtime_dir@, "run.sh"@),
                    join_spec(self.temp_dir@, "input.txt"@),
                    req,
                ),
                run_limits_spec(req),
            ),
            JobPhase::RunningSingle => {
                let r = new.outcome->0;
                &&& new.outcome is Some
                &&& names_runtime(r, self)
                &&& same_opt_stage(r.compile, self.compile)
                &&& r.testcases is None
                &&& r.run is Some
                &&& match e {
                    JobEvent::Stage(res) => same_stage(r.run->0, res),
                    _ => is_synthetic(
                        r.run->0,
                        StageStatus::RuntimeError,
                        Seq::empty(),
                        "Sandbox error: "@ + failure_text(e),
                    ),
                }
                &&& self.closes(new, a, r)
            },
            JobPhase::CleaningUp => new.phase == JobPhase::RemovingDir && removes(a, self.temp_dir@)
                && new.outcome == self.outcome,
            JobPhase::RemovingDir => new.phase == JobPhase::Finished && self.outcome is Some && a
                == JobAction::Finish(self.outcome->0) && new.outcome is None,
            JobPhase::Finished => new.phase == JobPhase::Finished && a is Idle,
        }
    }
}

/// Once a job is closing, the result it publishes is the one it decided:
/// from tearing down the sandbox or removing the scratch directory, the
/// steps that follow end in `Finish` with the outcome set when it closed.
pub proof fn lemma_closing_publishes_outcome(
    s0: JobRun,
    e1: JobEvent,
    s1: JobRun,
    a1: JobAction,
    e2: JobEvent,
    s2: JobRun,
    a2: JobAction,
)
    requires
        s0.wf(),
        s0.phase == JobPhase::CleaningUp,
        s0.step_spec(e1, s1, a1),
        s1.step_spec(e2, s2, a2),
    ensures
        s1.phase == JobPhase::RemovingDir,
        s0.outcome is Some,
        a2 == JobAction::Finish(s0.outcome->0),
        s2.phase == JobPhase::Finished,
{
}

/// The result of a job that failed with `message` before its run stage.
pub fn fail_job(job: &Job, message: String) -> (r: JobResult)
    ensures
        is_failure(r, job.request.language@, version_or_latest(job.request), message@),
{
    failure_result(&job.request.language, &resolved_version(&job.request), message)
}

/// The result of a job for `language` at `version` that failed with `message`.
pub fn failure_result(language: &String, version: &String, message: String) -> (r: JobResult)
    ensures
        is_failure(r, language@, version@, message@),
{
    JobResult {
        language: copy_string(language),
        version: copy_string(version),
        run: Some(StageResult::synthetic(StageStatus::RuntimeError, String::new(), message)),
        compile: None,
        testcases: None,
    }
}

/// The version directory a request asks for: its own, else `latest`.
pub fn resolved_version(r: &JobRequest) -> (v: String)
    ensures
        v@ == version_or_latest(*r),
{
    match &r.version {
        Some(v) => copy_string(v),
        None => String::from_str("latest"),
    }
}

/// The runtime directory a request asks for.
pub fn get_runtime_path(runtimes_dir: &str, r: &JobRequest) -> (p: String)
    ensures
        p@ == runtime_dir_spec(runtimes_dir@, *r),
{
    let l = join_path(runtimes_dir, r.language.as_str());
    join_path(l.as_str(), resolved_version(r).as_str())
}

/// The scratch directory of job `id` for `user` under the system's temporary directory.
pub fn job_temp_dir(system_temp: &str, user: &str, id: &str) -> (p: String)
    ensures
        p@ == temp_dir_spec(system_temp@, user@, id@),
{
    let d = join_path(system_temp, concat2("turbo-", user).as_str());
    join_path(d.as_str(), id)
}

/// The root of the compile cache for `user` under the system's temporary directory.
pub fn cache_root(system_temp: &str, user: &str) -> (p: String)
    ensures
        p@ == cache_root_spec(system_temp@, user@),
{
    join_path(system_temp, concat2("turbo-cache-", user).as_str())
}

fn append_quoted(line: &mut String, w: &str)
    ensures
        final(line)@ == old(line)@ + " \""@ + w@ + "\""@,
{
    line.append(" \"");
    line.append(w);
    line.append("\"");
}

/// The shell line of the compile stage.
pub fn compile_command(dir: &str, script: &str, r: &JobRequest) -> (line: String)
    ensures
        line@ == compile_line(dir@, script@, *r),
{
    let mut line = concat3("cd ", dir, " && ");
    line.append(script);
    let ghost head = line@;
    let mut i: usize = 0;
    while i < r.files.len()
        invariant
            i <= r.files@.len(),
            line@ == head + quoted_words(file_names(*r).take(i as int)),
        decreases r.files@.len() - i,
    {
        match &r.files[i].name {
            Some(n) => append_quoted(&mut line, n.as_str()),
            None => append_quoted(&mut line, "main"),
        }
        proof {
            let t = file_names(*r).take(i + 1);
            assert(t.drop_last() =~= file_names(*r).take(i as int));
        }
        i = i + 1;
    }
    assert(file_names(*r).take(i as int) =~= file_names(*r));
    line
}

/// The shell line of a run that reads `input`.
pub fn run_command(dir: &str, script: &str, input: &str, r: &JobRequest) -> (line: String)
    ensures
        line@ == run_line(dir@, script@, input@, *r),
{
    let mut line = concat3("cd ", dir, " && ");
    line.append(script);
    line.append(" < ");
    line.append(input);
    match &r.args {
        Some(args) => {
            let ghost head = line@;
            let ghost words = arg_words(*r);
            let mut i: usize = 0;
            while i < args.len()
                invariant
                    i <= args@.len(),
                    words == args@.map_values(|s: String| s@),
                    line@ == head + quoted_words(words.take(i as int)),
                decreases args@.len() - i,
            {
                append_quoted(&mut line, args[i].as_str());
                proof {
                    let t = words.take(i + 1);
                    assert(t.drop_last() =~= words.take(i as int));
                }
                i = i + 1;
            }
            assert(words.take(i as int) =~= words);
        },
        None => {
            assert(arg_words(*r) =~= Seq::<Seq<char>>::empty());
        },
    }
    line
}

/// The limits of the compile stage.
pub fn compile_limits(r: &JobRequest) -> (l: ExecutionLimits)
    ensures
        l == compile_limits_spec(*r),
{
    let t = match r.compile_timeout {
        Some(t) => t,
        None => DEFAULT_COMPILE_TIMEOUT_MS,
    };
    let m = match r.compile_memory_limit {
        Some(m) => m,
        None => DEFAULT_MEMORY_LIMIT,
    };
    ExecutionLimits::with_time_and_memory(t, m)
}

/// The limits of a run stage.
pub fn run_limits(r: &JobRequest) -> (l: ExecutionLimits)
    ensures
        l == run_limits_spec(*r),
{
    let t = match r.run_timeout {
        Some(t) => t,
        None => DEFAULT_RUN_TIMEOUT_MS,
    };
    let m = match r.run_memory_limit {
        Some(m) => m,
        None => DEFAULT_MEMORY_LIMIT,
    };
    ExecutionLimits::with_time_and_memory(t, m)
}

fn shell(id: &str, line: String, limits: ExecutionLimits) -> (a: JobAction)
    ensures
        runs_shell(a, id@, line@, limits),
{
    let mut args: Vec<String> = Vec::new();
    args.push(String::from_str("-c"));
    args.push(line);
    JobAction::Run { id: String::from_str(id), cmd: String::from_str("sh"), args, limits }
}

fn failure_message(prefix: &str, e: &JobEvent) -> (m: String)
    ensures
        m@ == prefix@ + failure_text(*e),
{
    match e {
        JobEvent::Failed(t) => concat2(prefix, t.as_str()),
        _ => concat2(prefix, "unexpected event"),
    }
}

/// Pause after a queue error before polling again, in milliseconds.
pub const QUEUE_ERROR_BACKOFF_MS: u64 = 1000;

/// What polling the job queue gave.
#[derive(Clone, Copy, Debug, PartialEq, Eq, Structural)]
pub enum PollOutcome {
    /// A job was taken.
    Job,
    /// The queue had nothing.
    Empty,
    /// The queue could not be read.
    Error,
}

/// What a worker does next.
#[derive(Clone, Copy, Debug, PartialEq, Eq, Structural)]
pub enum WorkerAction {
    /// Run the job that was taken, then poll again.
    Execute,
    /// Poll again at once.
    Poll,
    /// Sleep this many milliseconds, then poll again.
    Sleep(u64),
}

/// A worker's decision after polling the queue: run a job, poll again
/// when the queue was empty, back off after an error.
pub fn worker_next(o: PollOutcome) -> (a: WorkerAction)
    ensures
        o == PollOutcome::Job ==> a == WorkerAction::Execute,
        o == PollOutcome::Empty ==> a == WorkerAction::Poll,
        o == PollOutcome::Error ==> a == WorkerAction::Sleep(QUEUE_ERROR_BACKOFF_MS),
{
    match o {
        PollOutcome::Job => WorkerAction::Execute,
        PollOutcome::Empty => WorkerAction::Poll,
        PollOutcome::Error => WorkerAction::Sleep(QUEUE_ERROR_BACKOFF_MS),
    }
}

fn asks_for_latest(r: &JobRequest) -> (b: bool)
    ensures
        b == asks_latest(*r),
{
    match &r.version {
        Some(v) => *v == String::from_str("latest"),
        None => true,
    }
}

fn copy_opt_stage(s: &Option<StageResult>) -> (r: Option<StageResult>)
    ensures
        same_opt_stage(r, *s),
{
    match s {
        Some(x) => Some(x.duplicate()),
        None => None,
    }
}

impl JobRun {
    /// Takes up `job`, whose runtimes live under `runtimes_dir`, with scratch
    /// space and cache under `system_temp` for `user`.
    pub fn new(job: Job, runtimes_dir: &str, system_temp: &str, user: &str) -> (r: JobRun)
        ensures
            r.job == job,
            r.temp_dir@ == temp_dir_spec(system_temp@, user@, job.id@),
            r.runtime_dir@ == runtime_dir_spec(runtimes_dir@, job.request),
            r.lang_dir@ == join_spec(runtimes_dir@, job.request.language@),
            r.version@ == version_or_latest(job.request),
            r.cache_dir@ == cache_root_spec(system_temp@, user@),
            r.phase == JobPhase::Start,
            r.cache_entry is None,
            r.compile is None,
            r.cases@.len() == 0,
            !r.sandbox_ready,
            r.outcome is None,
            r.wf(),
    {
        let temp_dir = job_temp_dir(system_temp, user, job.id.as_str());
        let lang_dir = join_path(runtimes_dir, job.request.language.as_str());
        let version = resolved_version(&job.request);
        let runtime_dir = join_path(lang_dir.as_str(), version.as_str());
        let cache_dir = cache_root(system_temp, user);
        JobRun {
            job,
            temp_dir,
            runtime_dir,
            lang_dir,
            version,
            cache_dir,
            phase: JobPhase::Start,
            cache_entry: None,
            compile: None,
            cases: Vec::new(),
            sandbox_ready: false,
            outcome: None,
        }
    }

    /// Takes the outcome `e` of the last action and gives the next action.
    pub fn step(&mut self, e: JobEvent) -> (a: JobAction)
        requires
            old(self).wf(),
        ensures
            old(self).step_spec(e, *final(self), a),
            final(self).wf(),
            final(self).job == old(self).job,
            final(self).temp_dir == old(self).temp_dir,
            !(old(self).phase is ListingVersions) ==> final(self).runtime_dir == old(self).runtime_dir,
            !(old(self).phase is ListingVersions) ==> final(self).version == old(self).version,
            final(self).lang_dir == old(self).lang_dir,
            final(self).cache_dir == old(self).cache_dir,
            !(old(self).phase is RunningCase) ==> final(self).cases == old(self).cases,
            !(old(self).phase is Restoring || old(self).phase is Compiling) ==> final(self).compile
                == old(self).compile,
            !(old(self).phase is ReadingCompileScript) ==> final(self).cache_entry == old(
                self,
            ).cache_entry,
            !(old(self).phase is InitializingSandbox) ==> final(self).sandbox_ready == old(
                self,
            ).sandbox_ready,
    {
        match self.phase {
            JobPhase::Start => {
                self.phase = JobPhase::MakingDir;
                JobAction::CreateDir(copy_string(&self.temp_dir))
            },
            JobPhase::MakingDir => match e {
                JobEvent::Done => self.next_file(0),
                _ => {
                    let r = failure_result(
                        &self.job.request.language,
                        &self.version,
                        failure_message("Failed to create temp dir: ", &e),
                    );
                    self.phase = JobPhase::Finished;
                    JobAction::Finish(r)
                },
            },
            JobPhase::WritingFile(i) => match e {
                JobEvent::Done => {
                    let n = self.job.request.files.len();
                    assert(i < n);
                    self.next_file(i + 1)
                },
                _ => self.fail(failure_message("Failed to write file: ", &e)),
            },
            JobPhase::ListingVersions => {
                let found = match &e {
                    JobEvent::Names(ns) => match resolve_version(self.job.request.language.as_str(), &None, ns) {
                        Ok(v) => Some(v),
                        Err(_) => None,
                    },
                    _ => None,
                };
                match found {
                    Some(v) => {
                        self.runtime_dir = join_path(self.lang_dir.as_str(), v.as_str());
                        self.version = v;
                        self.phase = JobPhase::CheckingRuntime;
                        JobAction::CheckExists(copy_string(&self.runtime_dir))
                    },
                    None => {
                        let m = concat3("Runtime not found: ", self.job.request.language.as_str(), ":latest");
                        self.fail(m)
                    },
                }
            },
            JobPhase::CheckingRuntime => match e {
                JobEvent::Exists(true) => {
                    self.phase = JobPhase::LoadingPackage;
                    JobAction::LoadPackage(copy_string(&self.runtime_dir))
                },
                _ => {
                    let m = concat2("Runtime not found at ", self.runtime_dir.as_str());
                    self.fail(m)
                },
            },
            JobPhase::LoadingPackage => match e {
                JobEvent::Done => {
                    self.phase = JobPhase::InitializingSandbox;
                    JobAction::InitSandbox(copy_string(&self.job.id))
                },
                _ => self.fail(failure_message("Invalid runtime definition: ", &e)),
            },
            JobPhase::InitializingSandbox => match e {
                JobEvent::Done => {
                    self.sandbox_ready = true;
                    self.phase = JobPhase::CheckingCompileScript;
                    JobAction::CheckExists(join_path(self.runtime_dir.as_str(), "compile.sh"))
                },
                _ => self.fail(failure_message("Sandbox init failed: ", &e)),
            },
            JobPhase::CheckingCompileScript => match e {
                JobEvent::Exists(true) => {
                    self.phase = JobPhase::ReadingCompileScript;
                    JobAction::ReadText(join_path(self.runtime_dir.as_str(), "compile.sh"))
                },
                _ => {
                    self.phase = JobPhase::CheckingRunScript;
                    JobAction::CheckExists(join_path(self.runtime_dir.as_str(), "run.sh"))
                },
            },
            JobPhase::ReadingCompileScript => {
                let key = match &e {
                    JobEvent::Text(t) => cache_key(&self.job.request, t.as_str()),
                    _ => {
                        proof {
                            reveal_strlit("");
                        }
                        cache_key(&self.job.request, "")
                    },
                };
                let entry = join_path(self.cache_dir.as_str(), key.as_str());
                let check = copy_string(&entry);
                self.cache_entry = Some(entry);
                self.phase = JobPhase::CheckingCache;
                JobAction::CheckExists(check)
            },
            JobPhase::CheckingCache => match e {
                JobEvent::Exists(true) => {
                    let entry = match &self.cache_entry {
                        Some(c) => copy_string(c),
                        None => String::new(),
                    };
                    self.phase = JobPhase::Restoring;
                    JobAction::RestoreCache { entry, dir: copy_string(&self.temp_dir) }
                },
                _ => self.start_compile(),
            },
            JobPhase::Restoring => match e {
                JobEvent::Done => {
                    self.compile = Some(
                        StageResult::synthetic(
                            StageStatus::Success,
                            String::from_str("Restored from cache"),
                            String::new(),
                        ),
                    );
                    self.phase = JobPhase::CheckingRunScript;
                    JobAction::CheckExists(join_path(self.runtime_dir.as_str(), "run.sh"))
                },
                _ => self.start_compile(),
            },
            JobPhase::Compiling => match e {
                JobEvent::Stage(res) => {
                    if res.status == StageStatus::Success {
                        self.compile = Some(res);
                        let entry = match &self.cache_entry {
                            Some(c) => copy_string(c),
                            None => String::new(),
                        };
                        self.phase = JobPhase::Storing;
                        JobAction::StoreCache { dir: copy_string(&self.temp_dir), entry }
                    } else {
                        let mut failed = res;
                        failed.status = StageStatus::CompilationError;
                        let r = JobResult {
                            language: copy_string(&self.job.request.language),
                            version: copy_string(&self.version),
                            run: None,
                            compile: Some(failed),
                            testcases: None,
                        };
                        self.close(r)
                    }
                },
                _ => self.fail(failure_message("Compile execution failed: ", &e)),
            },
            JobPhase::Storing => {
                self.phase = JobPhase::CheckingRunScript;
                JobAction::CheckExists(join_path(self.runtime_dir.as_str(), "run.sh"))
            },
            JobPhase::CheckingRunScript => match e {
                JobEvent::Exists(true) => match &self.job.request.testcases {
                    Some(t) => {
                        if t.len() > 0 {
                            self.write_input(0)
                        } else {
                            let r = JobResult {
                                language: copy_string(&self.job.request.language),
                                version: copy_string(&self.version),
                                run: None,
                                compile: copy_opt_stage(&self.compile),
                                testcases: Some(Vec::new()),
                            };
                            self.close(r)
                        }
                    },
                    None => {
                        let content = match &self.job.request.stdin {
                            Some(s) => s.as_str().as_bytes_vec(),
                            None => Vec::new(),
                        };
                        self.phase = JobPhase::WritingStdin;
                        JobAction::WriteFile {
                            path: join_path(self.temp_dir.as_str(), "input.txt"),
                            content,
                        }
                    },
                },
                _ => {
                    let m = concat2(
                        "Run script not found at ",
                        join_path(self.runtime_dir.as_str(), "run.sh").as_str(),
                    );
                    self.fail(m)
                },
            },
            JobPhase::WritingInput(i) => {
                let input = self.case_input_path(i);
                let script = join_path(self.runtime_dir.as_str(), "run.sh");
                let line = run_command(
                    self.temp_dir.as_str(),
                    script.as_str(),
                    input.as_str(),
                    &self.job.request,
                );
                self.phase = JobPhase::RunningCase(i);
                shell(self.job.id.as_str(), line, run_limits(&self.job.request))
            },
            JobPhase::RunningCase(i) => self.finish_case(i, e),
            JobPhase::WritingStdin => {
                let input = join_path(self.temp_dir.as_str(), "input.txt");
                let script = join_path(self.runtime_dir.as_str(), "run.sh");
                let line = run_command(
                    self.temp_dir.as_str(),
                    script.as_str(),
                    input.as_str(),
                    &self.job.request,
                );
                self.phase = JobPhase::RunningSingle;
                shell(self.job.id.as_str(), line, run_limits(&self.job.request))
            },
            JobPhase::RunningSingle => {
                let run = match e {
                    JobEvent::Stage(res) => res,
                    _ => StageResult::synthetic(
                        StageStatus::RuntimeError,
                        String::new(),
                        failure_message("Sandbox error: ", &e),
                    ),
                };
                let r = JobResult {
                    language: copy_string(&self.job.request.language),
                    version: copy_string(&self.version),
                    run: Some(run),
                    compile: copy_opt_stage(&self.compile),
                    testcases: None,
                };
                self.close(r)
            },
            JobPhase::CleaningUp => {
                self.phase = JobPhase::RemovingDir;
                JobAction::RemoveDir(copy_string(&self.temp_dir))
            },
            JobPhase::RemovingDir => {
                self.phase = JobPhase::Finished;
                match self.outcome.take() {
                    Some(r) => JobAction::Finish(r),
                    None => JobAction::Idle,
                }
            },
            JobPhase::Finished => JobAction::Idle,
        }
    }

    fn start_compile(&mut self) -> (a: JobAction)
        ensures
            old(self).compiles(*final(self), a),
            final(self).job == old(self).job,
            final(self).temp_dir == old(self).temp_dir,
            final(self).runtime_dir == old(self).runtime_dir,
            final(self).version == old(self).version,
            final(self).lang_dir == old(self).lang_dir,
            final(self).cache_dir == old(self).cache_dir,
            final(self).cache_entry == old(self).cache_entry,
            final(self).compile == old(self).compile,
            final(self).cases == old(self).cases,
            final(self).sandbox_ready == old(self).sandbox_ready,
            final(self).outcome == old(self).outcome,
    {
        let script = join_path(self.runtime_dir.as_str(), "compile.sh");
        let line = compile_command(self.temp_dir.as_str(), script.as_str(), &self.job.request);
        self.phase = JobPhase::Compiling;
        shell(self.job.id.as_str(), line, compile_limits(&self.job.request))
    }

    fn case_input_path(&self, i: usize) -> (p: String)
        requires
            self.job.request.testcases is Some,
            i < self.case_count(),
        ensures
            p@ == case_input(self.temp_dir@, self.job.request, i as int),
    {
        match &self.job.request.testcases {
            Some(t) => {
                let name = concat3("input_", t[i].id.as_str(), ".txt");
                join_path(self.temp_dir.as_str(), name.as_str())
            },
            None => String::new(),
        }
    }

    fn write_input(&mut self, i: usize) -> (a: JobAction)
        requires
            old(self).job.request.testcases is Some,
            i < old(self).case_count(),
        ensures
            old(self).writes_input(*final(self), a, i as int),
            final(self).job == old(self).job,
            final(self).temp_dir == old(self).temp_dir,
            final(self).runtime_dir == old(self).runtime_dir,
            final(self).version == old(self).version,
            final(self).lang_dir == old(self).lang_dir,
            final(self).cache_dir == old(self).cache_dir,
            final(self).cache_entry == old(self).cache_entry,
            final(self).compile == old(self).compile,
            final(self).cases == old(self).cases,
            final(self).sandbox_ready == old(self).sandbox_ready,
            final(self).outcome == old(self).outcome,
    {
        let path = self.case_input_path(i);
        let content = match &self.job.request.testcases {
            Some(t) => t[i].input.as_str().as_bytes_vec(),
            None => Vec::new(),
        };
        self.phase = JobPhase::WritingInput(i);
        JobAction::WriteFile { path, content }
    }

    fn finish_case(&mut self, i: usize, e: JobEvent) -> (a: JobAction)
        requires
            old(self).wf(),
            old(self).phase == JobPhase::RunningCase(i),
        ensures
            old(self).step_spec(e, *final(self), a),
            final(self).wf(),
            final(self).job == old(self).job,
            final(self).temp_dir == old(self).temp_dir,
            final(self).runtime_dir == old(self).runtime_dir,
            final(self).version == old(self).version,
            final(self).lang_dir == old(self).lang_dir,
            final(self).cache_dir == old(self).cache_dir,
            final(self).cache_entry == old(self).cache_entry,
            final(self).compile == old(self).compile,
            final(self).sandbox_ready == old(self).sandbox_ready,
    {
        let n = match &self.job.request.testcases {
            Some(t) => t.len(),
            None => 0,
        };
        let (id, expected) = match &self.job.request.testcases {
            Some(t) => (copy_string(&t[i].id), crate::text::copy_opt_string(&t[i].expected_output)),
            None => (String::new(), None),
        };
        let c = match e {
            JobEvent::Stage(res) => testcase_result(id, &expected, res),
            _ => TestcaseResult {
                id,
                passed: false,
                actual_output: String::new(),
                run_details: StageResult::synthetic(
                    StageStatus::RuntimeError,
                    String::new(),
                    failure_message("Sandbox error: ", &e),
                ),
            },
        };
        let ghost before = self.cases@;
        self.cases.push(c);
        assert(self.cases@.drop_last() =~= before);
        let ghost all = self.cases@;
        if i + 1 < n {
            self.write_input(i + 1)
        } else {
            let mut cases: Vec<TestcaseResult> = Vec::new();
            std::mem::swap(&mut cases, &mut self.cases);
            assert(cases@ == all);
            let r = JobResult {
                language: copy_string(&self.job.request.language),
                version: copy_string(&self.version),
                run: None,
                compile: copy_opt_stage(&self.compile),
                testcases: Some(cases),
            };
            self.close(r)
        }
    }

    fn close(&mut self, result: JobResult) -> (a: JobAction)
        ensures
            old(self).closes(*final(self), a, result),
            final(self).job == old(self).job,
            final(self).temp_dir == old(self).temp_dir,
            final(self).runtime_dir == old(self).runtime_dir,
            final(self).version == old(self).version,
            final(self).lang_dir == old(self).lang_dir,
            final(self).cache_dir == old(self).cache_dir,
            final(self).cache_entry == old(self).cache_entry,
            final(self).compile == old(self).compile,
            final(self).cases == old(self).cases,
            final(self).sandbox_ready == old(self).sandbox_ready,
    {
        self.outcome = Some(result);
        if self.sandbox_ready {
            self.phase = JobPhase::CleaningUp;
            JobAction::CleanupSandbox(copy_string(&self.job.id))
        } else {
            self.phase = JobPhase::RemovingDir;
            JobAction::RemoveDir(copy_string(&self.temp_dir))
        }
    }

    fn fail(&mut self, message: String) -> (a: JobAction)
        ensures
            old(self).fails(*final(self), a, message@),
            final(self).job == old(self).job,
            final(self).temp_dir == old(self).temp_dir,
            final(self).runtime_dir == old(self).runtime_dir,
            final(self).version == old(self).version,
            final(self).lang_dir == old(self).lang_dir,
            final(self).cache_dir == old(self).cache_dir,
            final(self).cache_entry == old(self).cache_entry,
            final(self).compile == old(self).compile,
            final(self).cases == old(self).cases,
            final(self).sandbox_ready == old(self).sandbox_ready,
    {
        let r = failure_result(&self.job.request.language, &self.version, message);
        self.close(r)
    }

    fn next_file(&mut self, i: usize) -> (a: JobAction)
        requires
            i <= old(self).job.request.files@.len(),
        ensures
            old(self).after_files(*final(self), a, i as int),
            final(self).job == old(self).job,
            final(self).temp_dir == old(self).temp_dir,
            final(self).runtime_dir == old(self).runtime_dir,
            final(self).version == old(self).version,
            final(self).lang_dir == old(self).lang_dir,
            final(self).cache_dir == old(self).cache_dir,
            final(self).cache_entry == old(self).cache_entry,
            final(self).compile == old(self).compile,
            final(self).cases == old(self).cases,
            final(self).sandbox_ready == old(self).sandbox_ready,
            final(self).phase is WritingFile ==> final(self).phase->WritingFile_0 == i,
            final(self).phase is CleaningUp || final(self).phase is RemovingDir ==> final(self).outcome is Some,
            final(self).phase is WritingFile || final(self).phase is CheckingRuntime || final(self).phase is ListingVersions
                || final(self).phase is CleaningUp || final(self).phase is RemovingDir,
    {
        if i < self.job.request.files.len() {
            match file_bytes(&self.job.request.files[i]) {
                Some(content) => {
                    let f = &self.job.request.files[i];
                    let path = match &f.name {
                        Some(n) => join_path(self.temp_dir.as_str(), n.as_str()),
                        None => join_path(self.temp_dir.as_str(), "main"),
                    };
                    self.phase = JobPhase::WritingFile(i);
                    JobAction::WriteFile { path, content }
                },
                None => {
                    let name = match &self.job.request.files[i].name {
                        Some(n) => copy_string(n),
                        None => String::from_str("main"),
                    };
                    let m = concat2("Failed to decode file ", name.as_str());
                    self.fail(m)
                },
            }
        } else if asks_for_latest(&self.job.request) {
            self.phase = JobPhase::ListingVersions;
            JobAction::ListDirs(copy_string(&self.lang_dir))
        } else {
            self.phase = JobPhase::CheckingRuntime;
            JobAction::CheckExists(copy_string(&self.runtime_dir))
        }
    }
}

} // verus!
