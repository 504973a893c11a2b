use turbo::models::{FileRequest, Job, JobRequest, JobResult, StageResult, StageStatus, Testcase};
use turbo::worker::{
    cache_root, compile_command, fail_job, get_runtime_path, job_temp_dir, run_command, worker_next,
    JobAction, JobEvent, JobPhase, JobRun, PollOutcome, WorkerAction,
};

fn request(language: &str, version: Option<&str>, files: Vec<FileRequest>) -> JobRequest {
    JobRequest {
        language: language.to_string(),
        version: version.map(|v| v.to_string()),
        files,
        testcases: None,
        args: None,
        stdin: None,
        run_timeout: None,
        compile_timeout: None,
        run_memory_limit: None,
        compile_memory_limit: None,
    }
}

fn file(name: Option<&str>, content: &str) -> FileRequest {
    FileRequest { name: name.map(|n| n.to_string()), content: content.to_string(), encoding: None }
}

fn success(stdout: &str) -> StageResult {
    StageResult {
        status: StageStatus::Success,
        stdout: stdout.to_string(),
        stderr: String::new(),
        exit_code: Some(0),
        signal: None,
        memory_usage: Some(1),
        cpu_time: Some(1),
        execution_time: Some(10),
    }
}

fn finish(run: &mut JobRun, mut a: JobAction) -> JobResult {
    for _ in 0..4 {
        match a {
            JobAction::Finish(r) => return r,
            JobAction::CleanupSandbox(_) | JobAction::RemoveDir(_) => a = run.step(JobEvent::Done),
            _ => panic!("the job is not closing"),
        }
    }
    panic!("no result")
}

fn to_run_script(run: &mut JobRun, compile_exists: bool) -> JobAction {
    assert!(matches!(run.step(JobEvent::Started), JobAction::CreateDir(_)));
    let mut a = run.step(JobEvent::Done);
    while let JobAction::WriteFile { .. } = a {
        a = run.step(JobEvent::Done);
    }
    if let JobAction::ListDirs(_) = a {
        a = run.step(JobEvent::Names(vec!["3.9.0".to_string(), "3.12.1".to_string()]));
    }
    assert!(matches!(a, JobAction::CheckExists(_)));
    assert!(matches!(run.step(JobEvent::Exists(true)), JobAction::LoadPackage(_)));
    assert!(matches!(run.step(JobEvent::Done), JobAction::InitSandbox(_)));
    assert!(matches!(run.step(JobEvent::Done), JobAction::CheckExists(_)));
    run.step(JobEvent::Exists(compile_exists))
}

#[test]
fn python_hello_world() {
    let mut req = request("python", Some("3.14.2"), vec![file(Some("main.py"), "print('Hello Python')")]);
    req.args = Some(vec!["main.py".to_string()]);
    let mut run = JobRun::new(Job { id: "j1".to_string(), request: req }, "/rt", "/tmp", "alice");
    match run.step(JobEvent::Started) {
        JobAction::CreateDir(d) => assert_eq!(d, "/tmp/turbo-alice/j1"),
        _ => panic!("expected the scratch directory"),
    }
    match run.step(JobEvent::Done) {
        JobAction::WriteFile { path, content } => {
            assert_eq!(path, "/tmp/turbo-alice/j1/main.py");
            assert_eq!(content, b"print('Hello Python')".to_vec());
        }
        _ => panic!("expected the source file"),
    }
    match run.step(JobEvent::Done) {
        JobAction::CheckExists(p) => assert_eq!(p, "/rt/python/3.14.2"),
        _ => panic!("expected the runtime check"),
    }
    match run.step(JobEvent::Exists(true)) {
        JobAction::LoadPackage(p) => assert_eq!(p, "/rt/python/3.14.2"),
        _ => panic!("expected the package"),
    }
    match run.step(JobEvent::Done) {
        JobAction::InitSandbox(id) => assert_eq!(id, "j1"),
        _ => panic!("expected the sandbox"),
    }
    match run.step(JobEvent::Done) {
        JobAction::CheckExists(p) => assert_eq!(p, "/rt/python/3.14.2/compile.sh"),
        _ => panic!("expected the compile script check"),
    }
    match run.step(JobEvent::Exists(false)) {
        JobAction::CheckExists(p) => assert_eq!(p, "/rt/python/3.14.2/run.sh"),
        _ => panic!("expected the run script check"),
    }
    match run.step(JobEvent::Exists(true)) {
        JobAction::WriteFile { path, content } => {
            assert_eq!(path, "/tmp/turbo-alice/j1/input.txt");
            assert!(content.is_empty());
        }
        _ => panic!("expected the stdin file"),
    }
    match run.step(JobEvent::Done) {
        JobAction::Run { id, cmd, args, limits } => {
            assert_eq!(id, "j1");
            assert_eq!(cmd, "sh");
            assert_eq!(
                args,
                vec![
                    "-c".to_string(),
                    "cd /tmp/turbo-alice/j1 && /rt/python/3.14.2/run.sh < /tmp/turbo-alice/j1/input.txt \"main.py\"".to_string()
                ]
            );
            assert_eq!(limits.timeout_ms, 3000);
            assert_eq!(limits.memory_limit_bytes, 512 * 1024 * 1024);
        }
        _ => panic!("expected the run"),
    }
    let a = run.step(JobEvent::Stage(success("Hello Python\n")));
    assert!(matches!(a, JobAction::CleanupSandbox(ref id) if id == "j1"));
    let r = finish(&mut run, a);
    assert_eq!(r.language, "python");
    assert_eq!(r.version, "3.14.2");
    let out = r.run.expect("a run result");
    assert_eq!(out.status, StageStatus::Success);
    assert!(out.stdout.contains("Hello Python"));
    assert!(r.compile.is_none());
    assert!(r.testcases.is_none());
    assert_eq!(run.phase, JobPhase::Finished);
    assert!(matches!(run.step(JobEvent::Done), JobAction::Idle));
}

#[test]
fn python_division_by_zero_is_a_runtime_error() {
    let mut run = JobRun::new(
        Job { id: "z".to_string(), request: request("python", Some("3.14.2"), vec![file(Some("main.py"), "print(1/0)")]) },
        "/rt",
        "/tmp",
        "u",
    );
    to_run_script(&mut run, false);
    assert!(matches!(run.step(JobEvent::Exists(true)), JobAction::WriteFile { .. }));
    assert!(matches!(run.step(JobEvent::Done), JobAction::Run { .. }));
    let failed = StageResult {
        status: StageStatus::RuntimeError,
        stdout: String::new(),
        stderr: "ZeroDivisionError: division by zero".to_string(),
        exit_code: Some(1),
        signal: None,
        memory_usage: None,
        cpu_time: None,
        execution_time: Some(20),
    };
    let a = run.step(JobEvent::Stage(failed));
    let r = finish(&mut run, a);
    let out = r.run.unwrap();
    assert_eq!(out.status, StageStatus::RuntimeError);
    assert!(out.stderr.contains("ZeroDivisionError"));
    assert_ne!(out.exit_code, Some(0));
}

#[test]
fn unnamed_file_is_written_as_main() {
    let mut run = JobRun::new(
        Job { id: "n".to_string(), request: request("c", Some("1.0.0"), vec![file(None, "int main(){}")]) },
        "/rt",
        "/tmp",
        "u",
    );
    run.step(JobEvent::Started);
    match run.step(JobEvent::Done) {
        JobAction::WriteFile { path, .. } => assert_eq!(path, "/tmp/turbo-u/n/main"),
        _ => panic!("expected the file"),
    }
}

#[test]
fn hex_encoded_file_is_decoded() {
    let mut f = file(Some("data.bin"), "00ff41");
    f.encoding = Some("hex".to_string());
    let mut run = JobRun::new(Job { id: "h".to_string(), request: request("c", None, vec![f]) }, "/rt", "/tmp", "u");
    run.step(JobEvent::Started);
    match run.step(JobEvent::Done) {
        JobAction::WriteFile { content, .. } => assert_eq!(content, vec![0x00, 0xff, 0x41]),
        _ => panic!("expected the file"),
    }
}

#[test]
fn undecodable_file_fails_the_job() {
    let mut f = file(Some("data.bin"), "0g");
    f.encoding = Some("hex".to_string());
    let mut run = JobRun::new(Job { id: "h".to_string(), request: request("c", None, vec![f]) }, "/rt", "/tmp", "u");
    run.step(JobEvent::Started);
    let a = run.step(JobEvent::Done);
    assert!(matches!(a, JobAction::RemoveDir(_)));
    let r = finish(&mut run, a);
    assert_eq!(r.run.unwrap().stderr, "Failed to decode file data.bin");
    assert_eq!(r.version, "latest");
}

#[test]
fn missing_runtime_is_reported() {
    let mut run = JobRun::new(
        Job { id: "m".to_string(), request: request("python", Some("3.99.0"), vec![]) },
        "/rt",
        "/tmp",
        "u",
    );
    run.step(JobEvent::Started);
    assert!(matches!(run.step(JobEvent::Done), JobAction::CheckExists(_)));
    let a = run.step(JobEvent::Exists(false));
    let r = finish(&mut run, a);
    let out = r.run.unwrap();
    assert_eq!(out.status, StageStatus::RuntimeError);
    assert_eq!(out.stderr, "Runtime not found at /rt/python/3.99.0");
    assert!(r.compile.is_none() && r.testcases.is_none());
}

#[test]
fn temp_dir_failure_finishes_at_once() {
    let mut run = JobRun::new(Job { id: "t".to_string(), request: request("python", None, vec![]) }, "/rt", "/tmp", "u");
    run.step(JobEvent::Started);
    match run.step(JobEvent::Failed("permission denied".to_string())) {
        JobAction::Finish(r) => {
            assert_eq!(r.run.unwrap().stderr, "Failed to create temp dir: permission denied");
            assert_eq!(r.version, "latest");
        }
        _ => panic!("expected the result"),
    }
}

#[test]
fn sandbox_init_failure_is_reported() {
    let mut run = JobRun::new(Job { id: "s".to_string(), request: request("python", Some("3.12.1"), vec![]) }, "/rt", "/tmp", "u");
    run.step(JobEvent::Started);
    run.step(JobEvent::Done);
    run.step(JobEvent::Exists(true));
    run.step(JobEvent::Done);
    let a = run.step(JobEvent::Failed("not root".to_string()));
    assert!(matches!(a, JobAction::RemoveDir(_)));
    let r = finish(&mut run, a);
    assert_eq!(r.run.unwrap().stderr, "Sandbox init failed: not root");
}

#[test]
fn java_compile_error() {
    let mut run = JobRun::new(
        Job { id: "jv".to_string(), request: request("java", Some("21.0.0"), vec![file(Some("Main.java"), "class Main { int x = 1 }")]) },
        "/rt",
        "/tmp",
        "u",
    );
    match to_run_script(&mut run, true) {
        JobAction::ReadText(p) => assert_eq!(p, "/rt/java/21.0.0/compile.sh"),
        _ => panic!("expected the compile script"),
    }
    match run.step(JobEvent::Text("javac \"$@\"".to_string())) {
        JobAction::CheckExists(p) => {
            assert!(p.starts_with("/tmp/turbo-cache-u/"));
            assert_eq!(p.len(), "/tmp/turbo-cache-u/".len() + 64);
        }
        _ => panic!("expected the cache check"),
    }
    match run.step(JobEvent::Exists(false)) {
        JobAction::Run { args, limits, .. } => {
            assert_eq!(args[1], "cd /tmp/turbo-u/jv && /rt/java/21.0.0/compile.sh \"Main.java\"");
            assert_eq!(limits.timeout_ms, 10000);
        }
        _ => panic!("expected the compile"),
    }
    let mut bad = success("");
    bad.status = StageStatus::RuntimeError;
    bad.stderr = "Main.java:1: error: ';' expected".to_string();
    bad.exit_code = Some(1);
    let a = run.step(JobEvent::Stage(bad));
    assert!(matches!(a, JobAction::CleanupSandbox(_)));
    let r = finish(&mut run, a);
    let c = r.compile.unwrap();
    assert_eq!(c.status, StageStatus::CompilationError);
    assert!(c.stderr.contains("error:"));
    assert!(r.run.is_none() && r.testcases.is_none());
}

#[test]
fn cache_hit_restores_compile_output() {
    let req = request("python", Some("3.14.2"), vec![file(Some("main.py"), "print(1)")]);
    let mut run = JobRun::new(Job { id: "c".to_string(), request: req }, "/rt", "/tmp", "u");
    assert!(matches!(to_run_script(&mut run, true), JobAction::ReadText(_)));
    let entry = match run.step(JobEvent::Text("python -m py_compile".to_string())) {
        JobAction::CheckExists(p) => p,
        _ => panic!("expected the cache check"),
    };
    match run.step(JobEvent::Exists(true)) {
        JobAction::RestoreCache { entry: e, dir } => {
            assert_eq!(e, entry);
            assert_eq!(dir, "/tmp/turbo-u/c");
        }
        _ => panic!("expected the restore"),
    }
    assert!(matches!(run.step(JobEvent::Done), JobAction::CheckExists(ref p) if p == "/rt/python/3.14.2/run.sh"));
    run.step(JobEvent::Exists(true));
    run.step(JobEvent::Done);
    let a = run.step(JobEvent::Stage(success("1\n")));
    let r = finish(&mut run, a);
    let c = r.compile.unwrap();
    assert_eq!(c.status, StageStatus::Success);
    assert_eq!(c.stdout, "Restored from cache");
}

#[test]
fn cache_miss_compiles_then_stores() {
    let req = request("python", Some("3.14.2"), vec![file(Some("main.py"), "print(1)")]);
    let mut run = JobRun::new(Job { id: "c".to_string(), request: req }, "/rt", "/tmp", "u");
    run_to_compile(&mut run);
    match run.step(JobEvent::Stage(success("compiled"))) {
        JobAction::StoreCache { dir, entry } => {
            assert_eq!(dir, "/tmp/turbo-u/c");
            assert!(entry.starts_with("/tmp/turbo-cache-u/"));
        }
        _ => panic!("expected the store"),
    }
    assert!(matches!(run.step(JobEvent::Failed("disk full".to_string())), JobAction::CheckExists(_)));
}

fn run_to_compile(run: &mut JobRun) {
    to_run_script(run, true);
    run.step(JobEvent::Text(String::new()));
    assert!(matches!(run.step(JobEvent::Exists(false)), JobAction::Run { .. }));
}

#[test]
fn failed_restore_falls_back_to_compiling() {
    let req = request("python", Some("3.14.2"), vec![file(Some("main.py"), "print(1)")]);
    let mut run = JobRun::new(Job { id: "c".to_string(), request: req }, "/rt", "/tmp", "u");
    to_run_script(&mut run, true);
    run.step(JobEvent::Text(String::new()));
    assert!(matches!(run.step(JobEvent::Exists(true)), JobAction::RestoreCache { .. }));
    assert!(matches!(run.step(JobEvent::Failed("gone".to_string())), JobAction::Run { .. }));
}

#[test]
fn python_batch() {
    let mut req = request("python", Some("3.14.2"), vec![file(Some("main.py"), "import sys\nprint(sys.stdin.read().strip()*2)")]);
    req.args = Some(vec!["main.py".to_string()]);
    let cases = [("1", "A", "AA"), ("2", "B", "BB"), ("3", "Hello", "HelloHello"), ("4", "Fail", "Wrong")];
    req.testcases = Some(
        cases
            .iter()
            .map(|(id, input, expected)| Testcase {
                id: id.to_string(),
                input: input.to_string(),
                expected_output: Some(expected.to_string()),
            })
            .collect(),
    );
    let mut run = JobRun::new(Job { id: "b".to_string(), request: req }, "/rt", "/tmp", "u");
    to_run_script(&mut run, false);
    let mut a = run.step(JobEvent::Exists(true));
    for (id, input, _) in cases.iter() {
        match a {
            JobAction::WriteFile { ref path, ref content } => {
                assert_eq!(path, &format!("/tmp/turbo-u/b/input_{}.txt", id));
                assert_eq!(content, &input.as_bytes().to_vec());
            }
            _ => panic!("expected an input file"),
        }
        match run.step(JobEvent::Done) {
            JobAction::Run { args, .. } => assert_eq!(
                args[1],
                format!("cd /tmp/turbo-u/b && /rt/python/3.14.2/run.sh < /tmp/turbo-u/b/input_{}.txt \"main.py\"", id)
            ),
            _ => panic!("expected a run"),
        }
        a = run.step(JobEvent::Stage(success(&format!("{}{}\n", input, input))));
    }
    let r = finish(&mut run, a);
    let t = r.testcases.unwrap();
    assert_eq!(t.len(), 4);
    assert!(t[0].passed && t[1].passed && t[2].passed);
    assert!(!t[3].passed);
    assert_eq!(t[3].actual_output.trim(), "FailFail");
    assert!(r.run.is_none());
}

#[test]
fn sandbox_error_in_a_testcase_fails_that_case() {
    let mut req = request("python", None, vec![]);
    req.testcases = Some(vec![Testcase { id: "x".to_string(), input: String::new(), expected_output: None }]);
    let mut run = JobRun::new(Job { id: "e".to_string(), request: req }, "/rt", "/tmp", "u");
    to_run_script(&mut run, false);
    run.step(JobEvent::Exists(true));
    run.step(JobEvent::Done);
    let a = run.step(JobEvent::Failed("spawn failed".to_string()));
    let r = finish(&mut run, a);
    let t = r.testcases.unwrap();
    assert!(!t[0].passed);
    assert_eq!(t[0].run_details.status, StageStatus::RuntimeError);
    assert_eq!(t[0].run_details.stderr, "Sandbox error: spawn failed");
}

#[test]
fn missing_run_script_is_reported() {
    let mut run = JobRun::new(Job { id: "r".to_string(), request: request("go", Some("1.22.0"), vec![]) }, "/rt", "/tmp", "u");
    to_run_script(&mut run, false);
    let a = run.step(JobEvent::Exists(false));
    assert!(matches!(a, JobAction::CleanupSandbox(_)));
    let r = finish(&mut run, a);
    assert_eq!(r.run.unwrap().stderr, "Run script not found at /rt/go/1.22.0/run.sh");
}

#[test]
fn custom_limits_are_used() {
    let mut req = request("python", None, vec![]);
    req.run_timeout = Some(1000);
    req.run_memory_limit = Some(1 << 20);
    req.stdin = Some("in".to_string());
    let mut run = JobRun::new(Job { id: "l".to_string(), request: req }, "/rt", "/tmp", "u");
    to_run_script(&mut run, false);
    match run.step(JobEvent::Exists(true)) {
        JobAction::WriteFile { content, .. } => assert_eq!(content, b"in".to_vec()),
        _ => panic!("expected stdin"),
    }
    match run.step(JobEvent::Done) {
        JobAction::Run { limits, .. } => {
            assert_eq!(limits.timeout_ms, 1000);
            assert_eq!(limits.memory_limit_bytes, 1 << 20);
            assert_eq!(limits.pid_limit, 256);
        }
        _ => panic!("expected the run"),
    }
}

#[test]
fn path_helpers() {
    let req = request("python", None, vec![file(Some("a.py"), ""), file(None, "")]);
    assert_eq!(get_runtime_path("/rt/", &req), "/rt/python/latest");
    assert_eq!(job_temp_dir("/tmp", "bob", "42"), "/tmp/turbo-bob/42");
    assert_eq!(cache_root("/var/tmp/", "bob"), "/var/tmp/turbo-cache-bob");
    assert_eq!(compile_command("/w", "/c.sh", &req), "cd /w && /c.sh \"a.py\" \"main\"");
    assert_eq!(run_command("/w", "/r.sh", "/w/in", &req), "cd /w && /r.sh < /w/in");
    let f = fail_job(&Job { id: "1".to_string(), request: req }, "boom".to_string());
    assert_eq!(f.language, "python");
    assert_eq!(f.version, "latest");
    assert_eq!(f.run.unwrap().stderr, "boom");
}

#[test]
fn missing_version_runs_the_newest_semver() {
    let mut run = JobRun::new(Job { id: "v".to_string(), request: request("python", None, vec![]) }, "/rt", "/tmp", "u");
    run.step(JobEvent::Started);
    match run.step(JobEvent::Done) {
        JobAction::ListDirs(d) => assert_eq!(d, "/rt/python"),
        _ => panic!("expected the version listing"),
    }
    let names = vec!["3.9.0".to_string(), "notes".to_string(), "3.12.1-rc1".to_string(), "3.12.1".to_string(), "3.10.4".to_string()];
    match run.step(JobEvent::Names(names)) {
        JobAction::CheckExists(p) => assert_eq!(p, "/rt/python/3.12.1"),
        _ => panic!("expected the runtime check"),
    }
    let a = run.step(JobEvent::Exists(false));
    let r = finish(&mut run, a);
    assert_eq!(r.version, "3.12.1");
    assert_eq!(r.run.unwrap().stderr, "Runtime not found at /rt/python/3.12.1");
}

#[test]
fn latest_without_any_semver_is_runtime_not_found() {
    let mut run = JobRun::new(Job { id: "v".to_string(), request: request("python", Some("latest"), vec![]) }, "/rt", "/tmp", "u");
    run.step(JobEvent::Started);
    assert!(matches!(run.step(JobEvent::Done), JobAction::ListDirs(_)));
    let a = run.step(JobEvent::Names(vec!["tmp".to_string()]));
    let r = finish(&mut run, a);
    let out = r.run.unwrap();
    assert_eq!(out.status, StageStatus::RuntimeError);
    assert_eq!(out.stderr, "Runtime not found: python:latest");
    assert!(r.compile.is_none() && r.testcases.is_none());
}

#[test]
fn failed_testcase_run_has_no_output() {
    let mut req = request("python", Some("3.12.1"), vec![]);
    req.testcases = Some(vec![Testcase { id: "x".to_string(), input: String::new(), expected_output: Some("1".to_string()) }]);
    let mut run = JobRun::new(Job { id: "f".to_string(), request: req }, "/rt", "/tmp", "u");
    to_run_script(&mut run, false);
    run.step(JobEvent::Exists(true));
    run.step(JobEvent::Done);
    let a = run.step(JobEvent::Failed("boom".to_string()));
    let t = finish(&mut run, a).testcases.unwrap();
    assert_eq!(t[0].actual_output, "");
}

#[test]
fn worker_backs_off_after_queue_errors() {
    assert_eq!(worker_next(PollOutcome::Job), WorkerAction::Execute);
    assert_eq!(worker_next(PollOutcome::Empty), WorkerAction::Poll);
    assert_eq!(worker_next(PollOutcome::Error), WorkerAction::Sleep(1000));
}
