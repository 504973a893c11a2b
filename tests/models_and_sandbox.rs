use turbo::models::{
    cpu_scale, memory_scale, stub_result, testcase_result, wall_scale, ExecutionLimits,
    StageResult, StageStatus,
};
use turbo::sandbox::{
    capture_text, classify_exit, finished_result, isolation_steps, parse_cpu_usage,
    parse_memory_current, split_env_pair, timeout_result, CgroupOp, CleanupAction, CleanupPhase,
    ExitInfo, IsolationStep, LinuxSandbox,
};
use turbo::numtext::{decimal, signed_decimal};

fn stage(status: StageStatus, stdout: &str) -> StageResult {
    StageResult::synthetic(status, stdout.to_string(), String::new())
}

#[test]
fn default_limits() {
    let l = ExecutionLimits::default();
    assert_eq!(l.memory_limit_bytes, 512 * 1024 * 1024);
    assert_eq!(l.pid_limit, 256);
    assert_eq!(l.file_limit, 2048);
    assert_eq!(l.timeout_ms, 3000);
    assert_eq!(l.output_limit_bytes, 1024);
    assert_eq!(l.uid, None);
    assert_eq!(l.gid, None);
}

#[test]
fn stub_is_pending_and_empty() {
    let s = stub_result();
    assert_eq!(s.status, StageStatus::Pending);
    assert!(s.stdout.is_empty() && s.stderr.is_empty());
    assert!(s.exit_code.is_none() && s.signal.is_none() && s.execution_time.is_none());
}

#[test]
fn wire_names() {
    assert_eq!(StageStatus::TimeLimitExceeded.wire_name(), "TIME_LIMIT_EXCEEDED");
    assert_eq!(StageStatus::Success.wire_name(), "SUCCESS");
    assert_eq!(StageStatus::CompilationError.wire_name(), "COMPILATION_ERROR");
}

#[test]
fn batch_testcases_pass_on_trimmed_equality() {
    let cases = [("1", "AA\n", "AA"), ("2", "BB\n", "BB"), ("3", "HelloHello\n", "HelloHello")];
    for (id, out, expected) in cases {
        let r = testcase_result(id.to_string(), &Some(expected.to_string()), stage(StageStatus::Success, out));
        assert!(r.passed);
        assert_eq!(r.id, id);
        assert_eq!(r.actual_output, out);
    }
    let r = testcase_result("4".to_string(), &Some("Wrong".to_string()), stage(StageStatus::Success, "FailFail\n"));
    assert!(!r.passed);
    assert_eq!(r.actual_output.trim(), "FailFail");
}

#[test]
fn testcase_without_expected_output_follows_status() {
    let ok = testcase_result("a".to_string(), &None, stage(StageStatus::Success, "x"));
    assert!(ok.passed);
    let bad = testcase_result("b".to_string(), &None, stage(StageStatus::RuntimeError, "x"));
    assert!(!bad.passed);
    let bad2 = testcase_result("c".to_string(), &Some("x".to_string()), stage(StageStatus::TimeLimitExceeded, "x"));
    assert!(!bad2.passed);
}

#[test]
fn trimming_uses_unicode_white_space() {
    let r = testcase_result("u".to_string(), &Some("\u{a0}ok\u{3000}".to_string()), stage(StageStatus::Success, " ok\t\n"));
    assert!(r.passed);
}

#[test]
fn summary_scales() {
    assert_eq!(memory_scale(2 * 1024 * 1024 * 1024).divisor, 1073741824);
    assert_eq!(memory_scale(2 * 1024 * 1024).unit, "MB");
    assert_eq!(memory_scale(1024).unit, "B");
    assert_eq!(memory_scale(1025).unit, "KB");
    assert_eq!(cpu_scale(1_000_001).unit, "s");
    assert_eq!(cpu_scale(1_000).unit, "\u{b5}s");
    assert_eq!(cpu_scale(1_001).divisor, 1000);
    assert_eq!(wall_scale(1500).unit, "s");
    assert_eq!(wall_scale(1000).unit, "ms");
}

#[test]
fn exit_classification() {
    assert_eq!(classify_exit(ExitInfo { success: true, code: Some(0), signal: None }), StageStatus::Success);
    assert_eq!(classify_exit(ExitInfo { success: false, code: Some(1), signal: None }), StageStatus::RuntimeError);
    assert_eq!(classify_exit(ExitInfo { success: false, code: None, signal: Some(9) }), StageStatus::MemoryLimitExceeded);
    assert_eq!(classify_exit(ExitInfo { success: false, code: None, signal: Some(15) }), StageStatus::RuntimeError);
}

#[test]
fn timeout_path_is_sigkill_without_exit_code() {
    let l = ExecutionLimits::default();
    let r = timeout_result(b"partial".to_vec(), Vec::new(), b"2048\n", b"usage_usec 1000123\n", 1003, &l);
    assert_eq!(r.status, StageStatus::TimeLimitExceeded);
    assert_eq!(r.signal.as_deref(), Some("SIGKILL"));
    assert_eq!(r.exit_code, None);
    assert_eq!(r.stdout, "partial");
    assert_eq!(r.memory_usage, Some(2048));
    assert_eq!(r.cpu_time, Some(1000123));
    assert_eq!(r.execution_time, Some(1003));
}

#[test]
fn zero_output_limit_keeps_nothing() {
    let l = ExecutionLimits { output_limit_bytes: 0, ..ExecutionLimits::default() };
    let r = finished_result(
        ExitInfo { success: true, code: Some(0), signal: None },
        b"hello".to_vec(),
        b"warn".to_vec(),
        b"",
        b"",
        5,
        &l,
    );
    assert_eq!(r.status, StageStatus::Success);
    assert_eq!(r.stdout, "");
    assert_eq!(r.stderr, "");
    assert_eq!(r.memory_usage, Some(0));
    assert_eq!(r.cpu_time, Some(0));
}

#[test]
fn output_is_capped_per_stream() {
    assert_eq!(capture_text(b"0123456789".to_vec(), 4), "0123");
    assert_eq!(capture_text(b"ab".to_vec(), 4), "ab");
    assert_eq!(capture_text("h\u{e9}llo".as_bytes().to_vec(), 3), "h\u{e9}");
    assert_eq!(capture_text("h\u{e9}llo".as_bytes().to_vec(), 2), "h");
    assert_eq!(capture_text("\u{e9}".as_bytes().to_vec(), 1), "");
    assert_eq!(capture_text(vec![0xff; 10], 4), "\u{fffd}");
    assert_eq!(capture_text(vec![0xff; 2], 6), "\u{fffd}\u{fffd}");
    let r = finished_result(
        ExitInfo { success: false, code: Some(1), signal: None },
        vec![b'x'; 5000],
        b"Traceback: ZeroDivisionError".to_vec(),
        b"1\n",
        b"",
        1,
        &ExecutionLimits::default(),
    );
    assert_eq!(r.stdout.len(), 1024);
    assert_eq!(r.status, StageStatus::RuntimeError);
    assert!(r.stderr.contains("ZeroDivisionError"));
    assert_eq!(r.exit_code, Some(1));
}

#[test]
fn killed_by_signal_nine_reports_memory_limit() {
    let r = finished_result(
        ExitInfo { success: false, code: None, signal: Some(9) },
        Vec::new(),
        Vec::new(),
        b"",
        b"",
        1,
        &ExecutionLimits::default(),
    );
    assert_eq!(r.status, StageStatus::MemoryLimitExceeded);
    assert_eq!(r.signal.as_deref(), Some("9"));
}

#[test]
fn cpu_stat_parsing() {
    assert_eq!(parse_cpu_usage(b"usage_usec 1234\nuser_usec 1000\nsystem_usec 234\n"), 1234);
    assert_eq!(parse_cpu_usage(b"user_usec 1\nusage_usec   77  \n"), 77);
    assert_eq!(parse_cpu_usage(b"user_usec 1\n"), 0);
    assert_eq!(parse_cpu_usage(b"usage_usec\n"), 0);
    assert_eq!(parse_cpu_usage(b"usage_usec x\n"), 0);
    assert_eq!(parse_cpu_usage(b""), 0);
}

#[test]
fn memory_current_parsing() {
    assert_eq!(parse_memory_current(b"4096\n"), 4096);
    assert_eq!(parse_memory_current(b"  +12 "), 12);
    assert_eq!(parse_memory_current(b"max\n"), 0);
    assert_eq!(parse_memory_current(b"1 2"), 0);
    assert_eq!(parse_memory_current(b"18446744073709551615"), u64::MAX);
    assert_eq!(parse_memory_current(b"18446744073709551616"), 0);
}

#[test]
fn decimal_text() {
    assert_eq!(decimal(0), "0");
    assert_eq!(decimal(536870912), "536870912");
    assert_eq!(signed_decimal(-15), "-15");
    assert_eq!(signed_decimal(i32::MIN), "-2147483648");
}

#[test]
fn env_pairs_split_at_first_equals() {
    assert_eq!(split_env_pair("PATH=/bin:/usr/bin"), ("PATH".to_string(), "/bin:/usr/bin".to_string()));
    assert_eq!(split_env_pair("A=b=c"), ("A".to_string(), "b=c".to_string()));
    assert_eq!(split_env_pair("FLAG"), ("FLAG".to_string(), String::new()));
    assert_eq!(split_env_pair("=v"), (String::new(), "v".to_string()));
}

#[test]
fn group_is_dropped_before_user() {
    let l = ExecutionLimits { uid: Some(1000), gid: Some(1001), ..ExecutionLimits::default() };
    assert_eq!(
        isolation_steps(&l),
        vec![
            IsolationStep::Unshare,
            IsolationStep::LimitOpenFiles(2048),
            IsolationStep::SetGid(1001),
            IsolationStep::SetUid(1000),
            IsolationStep::JoinCgroup,
        ]
    );
    assert_eq!(
        isolation_steps(&ExecutionLimits::default()),
        vec![IsolationStep::Unshare, IsolationStep::LimitOpenFiles(2048), IsolationStep::JoinCgroup]
    );
}

#[test]
fn cgroup_paths() {
    assert_eq!(LinuxSandbox::manager_path(), "/sys/fs/cgroup/turbo_executor");
    assert_eq!(LinuxSandbox::job_path("abc"), "/sys/fs/cgroup/turbo_executor/turbo-box-abc");
    assert_eq!(LinuxSandbox::kill_file("abc"), "/sys/fs/cgroup/turbo_executor/turbo-box-abc/cgroup.kill");
    assert_eq!(LinuxSandbox::procs_file("x"), "/sys/fs/cgroup/turbo_executor/turbo-box-x/cgroup.procs");
    let (m, c) = LinuxSandbox::accounting_files("x");
    assert_eq!(m, "/sys/fs/cgroup/turbo_executor/turbo-box-x/memory.current");
    assert_eq!(c, "/sys/fs/cgroup/turbo_executor/turbo-box-x/cpu.stat");
    assert_eq!(LinuxSandbox::new("/var/turbo".to_string()).root_path, "/var/turbo");
}

fn write_of(op: &CgroupOp) -> (String, String, bool) {
    match op {
        CgroupOp::Write { path, content, required } => (path.clone(), content.clone(), *required),
        CgroupOp::EnsureDir { .. } => panic!("expected a write"),
    }
}

#[test]
fn init_plan_sets_default_limits() {
    let s = LinuxSandbox::new(String::new());
    let plan = s.init_plan("j1");
    assert_eq!(plan.len(), 6);
    match &plan[0] {
        CgroupOp::EnsureDir { path, parents } => {
            assert_eq!(path, "/sys/fs/cgroup/turbo_executor");
            assert!(*parents);
        }
        _ => panic!("expected the manager directory"),
    }
    let (p, c, req) = write_of(&plan[1]);
    assert_eq!(p, "/sys/fs/cgroup/turbo_executor/cgroup.subtree_control");
    assert_eq!(c, "+cpu +memory +pids");
    assert!(!req);
    match &plan[2] {
        CgroupOp::EnsureDir { path, parents } => {
            assert_eq!(path, "/sys/fs/cgroup/turbo_executor/turbo-box-j1");
            assert!(!*parents);
        }
        _ => panic!("expected the job directory"),
    }
    assert_eq!(write_of(&plan[3]).1, "536870912");
    assert_eq!(write_of(&plan[4]).0, "/sys/fs/cgroup/turbo_executor/turbo-box-j1/memory.swap.max");
    assert_eq!(write_of(&plan[4]).1, "0");
    assert_eq!(write_of(&plan[5]).1, "256");
}

#[test]
fn limits_plan_skips_zero_limits() {
    let s = LinuxSandbox::new(String::new());
    let l = ExecutionLimits { memory_limit_bytes: 1000, pid_limit: 0, ..ExecutionLimits::default() };
    let plan = s.limits_plan("j", &l);
    assert_eq!(plan.len(), 2);
    assert_eq!(write_of(&plan[0]).1, "1000");
    let l = ExecutionLimits { memory_limit_bytes: 0, pid_limit: 7, ..ExecutionLimits::default() };
    let plan = s.limits_plan("j", &l);
    assert_eq!(plan.len(), 1);
    assert_eq!(write_of(&plan[0]), ("/sys/fs/cgroup/turbo_executor/turbo-box-j/pids.max".to_string(), "7".to_string(), true));
}

#[test]
fn cleanup_retries_after_kill() {
    let s = LinuxSandbox::new(String::new());
    let (p, a) = s.cleanup_step("j", CleanupPhase::Start, true);
    assert_eq!(p, CleanupPhase::Checking);
    assert!(matches!(a, CleanupAction::CheckExists(ref d) if d == "/sys/fs/cgroup/turbo_executor/turbo-box-j"));
    let (p, a) = s.cleanup_step("j", p, true);
    assert_eq!(p, CleanupPhase::Removing);
    assert!(matches!(a, CleanupAction::RemoveDir(_)));
    let (p, a) = s.cleanup_step("j", p, false);
    assert_eq!(p, CleanupPhase::Killing);
    assert!(matches!(a, CleanupAction::KillAll(ref k) if k.ends_with("turbo-box-j/cgroup.kill")));
    let (p, a) = s.cleanup_step("j", p, true);
    assert!(matches!(a, CleanupAction::Pause(50)));
    let (p, a) = s.cleanup_step("j", p, true);
    assert_eq!(p, CleanupPhase::Retrying);
    assert!(matches!(a, CleanupAction::RemoveDir(_)));
    let (p, a) = s.cleanup_step("j", p, false);
    assert_eq!(p, CleanupPhase::Done);
    assert!(matches!(a, CleanupAction::Finish));
}

#[test]
fn cleanup_of_missing_cgroup_does_nothing() {
    let s = LinuxSandbox::new(String::new());
    let (p, _) = s.cleanup_step("j", CleanupPhase::Start, true);
    let (p, a) = s.cleanup_step("j", p, false);
    assert_eq!(p, CleanupPhase::Done);
    assert!(matches!(a, CleanupAction::Finish));
}
