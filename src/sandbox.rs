//! The Linux sandbox's decisions: cgroup layout and the writes that set it up,
//! the order of the isolation steps in the child, environment pairs, output
//! capping, exit classification and resource accounting.
use vstd::prelude::*;
use crate::models::{ExecutionLimits, StageResult, StageStatus};
use crate::numtext::{
    decimal, decimal_spec, signed_decimal, signed_decimal_spec, parse_u64, parse_u64_spec,
    skip_token, skip_ws, token_end, ws_end,
};
use crate::text::{concat3, join_path, join_spec};
use crate::cache::utf8;

verus! {

/// Root of the unified cgroup hierarchy.
pub const CGROUP_ROOT: &'static str = "/sys/fs/cgroup";
/// Name of the manager cgroup that owns every job cgroup.
pub const MANAGER_DIR: &'static str = "turbo_executor";
/// Pause between killing a cgroup's processes and removing it again, in milliseconds.
pub const CLEANUP_PAUSE_MS: u64 = 50;

/// The manager cgroup's path.
pub open spec fn manager_path_spec() -> Seq<char> {
    CGROUP_ROOT@ + seq!['/'] + MANAGER_DIR@
}

/// The cgroup path of job `id`.
pub open spec fn job_path_spec(id: Seq<char>) -> Seq<char> {
    manager_path_spec() + seq!['/'] + "turbo-box-"@ + id
}

/// Sandbox built on cgroup v2 and namespace unsharing.
pub struct LinuxSandbox {
    /// Where the sandbox's scratch directories live (cgroups live under the cgroup root).
    pub root_path: String,
}

/// One write or directory creation under the cgroup tree.
pub enum CgroupOp {
    /// Create the directory (with its parents when `parents`) unless it exists; a failure is fatal.
    EnsureDir { path: String, parents: bool },
    /// Write `content` to the file; a failure is fatal only when `required`.
    Write { path: String, content: String, required: bool },
}

/// Whether `op` is a directory creation of `path`.
pub open spec fn is_ensure_dir(op: CgroupOp, path: Seq<char>, parents: bool) -> bool {
    op matches CgroupOp::EnsureDir { path: p, parents: q } && p@ == path && q == parents
}

/// Whether `op` writes `content` to `path`.
pub open spec fn is_write(op: CgroupOp, path: Seq<char>, content: Seq<char>, required: bool) -> bool {
    op matches CgroupOp::Write { path: p, content: c, required: q } && p@ == path && c@ == content
        && q == required
}

/// A step that the child performs between fork and exec, in the order given.
#[derive(Clone, Copy, Debug, PartialEq, Eq, Structural)]
pub enum IsolationStep {
    /// Leave the network, mount, IPC and UTS namespaces (not the PID namespace).
    Unshare,
    /// Cap the number of open files.
    LimitOpenFiles(u64),
    /// Drop to this group.
    SetGid(u32),
    /// Drop to this user.
    SetUid(u32),
    /// Join the job's cgroup by writing `0` to its `cgroup.procs`.
    JoinCgroup,
}

/// The isolation steps for `limits`: unshare, cap open files, drop the group
/// before the user, then join the cgroup.
pub open spec fn isolation_spec(limits: ExecutionLimits) -> Seq<IsolationStep> {
    seq![IsolationStep::Unshare, IsolationStep::LimitOpenFiles(limits.file_limit)]
        + (match limits.gid {
        Some(g) => seq![IsolationStep::SetGid(g)],
        None => Seq::empty(),
    }) + (match limits.uid {
        Some(u) => seq![IsolationStep::SetUid(u)],
        None => Seq::empty(),
    }) + seq![IsolationStep::JoinCgroup]
}

/// How a process that ran to its end terminated.
#[derive(Clone, Copy, Debug, PartialEq, Eq, Structural)]
pub struct ExitInfo {
    pub success: bool,
    pub code: Option<i32>,
    pub signal: Option<i32>,
}

/// The status of a process that ended by itself: killed by signal 9 is taken
/// for the memory limit, else success or a runtime error.
pub open spec fn classify_spec(exit: ExitInfo) -> StageStatus {
    if exit.signal == Some(9i32) {
        StageStatus::MemoryLimitExceeded
    } else if exit.success {
        StageStatus::Success
    } else {
        StageStatus::RuntimeError
    }
}

/// Classifies the end of a process that finished before its deadline.
pub fn classify_exit(exit: ExitInfo) -> (r: StageStatus)
    ensures
        r == classify_spec(exit),
{
    match exit.signal {
        Some(9) => StageStatus::MemoryLimitExceeded,
        _ => if exit.success {
            StageStatus::Success
        } else {
            StageStatus::RuntimeError
        },
    }
}

/// The first `limit` bytes of `b` (all of it when shorter).
pub open spec fn capped(b: Seq<u8>, limit: u64) -> Seq<u8> {
    if b.len() > limit {
        b.take(limit as int)
    } else {
        b
    }
}

/// The text `String::from_utf8_lossy` makes of `b`.
pub uninterp spec fn lossy_utf8(b: Seq<u8>) -> Seq<char>;

/// Relies on `String::from_utf8_lossy`: valid sequences are decoded and each
/// invalid one becomes U+FFFD; the result depends on the bytes alone, and
/// valid UTF-8 comes back as it is.
#[verifier::external_body]
fn decode_lossy(b: &[u8]) -> (r: String)
    ensures
        r@ == lossy_utf8(b@),
        vstd::utf8::valid_utf8(b@) ==> utf8(r@) == b@,
{
    String::from_utf8_lossy(b).into_owned()
}

/// The largest character boundary of `b` at or below `k`.
pub open spec fn boundary_at_most(b: Seq<u8>, k: int) -> int
    decreases k,
{
    if k <= 0 {
        0
    } else if vstd::utf8::is_char_boundary(b, k) {
        k
    } else {
        boundary_at_most(b, k - 1)
    }
}

/// The UTF-8 bytes of the text kept of an output stream: at most `limit`
/// bytes are read and decoded, and the text is cut back to at most `limit`
/// bytes at a character boundary.
pub open spec fn kept_text(raw: Seq<u8>, limit: u64) -> Seq<u8> {
    let full = utf8(lossy_utf8(capped(raw, limit)));
    if full.len() <= limit {
        full
    } else {
        full.take(boundary_at_most(full, limit as int))
    }
}

/// A text is at least as long in UTF-8 bytes as in characters.
pub proof fn lemma_utf8_len(s: Seq<char>)
    ensures
        utf8(s).len() >= s.len(),
    decreases s.len(),
{
    if s.len() > 0 {
        lemma_utf8_len(s.drop_first());
    }
}

proof fn lemma_boundary_at_most(b: Seq<u8>, k: int)
    requires
        0 <= k,
    ensures
        0 <= boundary_at_most(b, k) <= k,
    decreases k,
{
    if k > 0 && !vstd::utf8::is_char_boundary(b, k) {
        lemma_boundary_at_most(b, k - 1);
    }
}

/// The text kept of an output stream (see `kept_text`).
pub fn capture_text(bytes: Vec<u8>, limit: u64) -> (r: String)
    ensures
        utf8(r@) == kept_text(bytes@, limit),
        utf8(r@).len() <= limit,
        r@.len() <= limit,
        vstd::utf8::valid_utf8(capped(bytes@, limit)) ==> utf8(r@) == capped(bytes@, limit),
{
    broadcast use vstd::utf8::encode_utf8_valid_utf8, vstd::utf8::is_char_boundary_start_end_of_seq;
    let mut b = bytes;
    if b.len() as u64 > limit {
        b.truncate(limit as usize);
        assert(b@ =~= capped(bytes@, limit));
    }
    assert(b@ == capped(bytes@, limit));
    let s = decode_lossy(b.as_slice());
    let ghost full = utf8(s@);
    assert(full == utf8(lossy_utf8(capped(bytes@, limit))));
    let n = s.as_str().as_bytes().len();
    assert(n == full.len());
    if n as u64 <= limit {
        proof {
            lemma_utf8_len(s@);
        }
        assert(utf8(s@) == kept_text(bytes@, limit));
        return s;
    }
    let mut k: usize = limit as usize;
    while k > 0 && !s.as_str().is_char_boundary(k)
        invariant
            full == utf8(s@),
            k <= limit,
            (k as int) < full.len(),
            boundary_at_most(full, limit as int) == boundary_at_most(full, k as int),
        decreases k,
    {
        k = k - 1;
    }
    proof {
        assert(vstd::utf8::valid_utf8(full));
        assert(vstd::utf8::is_char_boundary(full, 0));
        assert(boundary_at_most(full, k as int) == k);
    }
    let (head, _) = s.as_str().split_at(k);
    let r = String::from_str(head);
    proof {
        assert(utf8(r@) =~= full.take(k as int));
        lemma_utf8_len(r@);
        assert(kept_text(bytes@, limit) == full.take(boundary_at_most(full, limit as int)));
    }
    r
}

/// The `usage_usec` key of `cpu.stat`, as bytes.
pub open spec fn usage_key() -> Seq<u8> {
    seq![0x75u8, 0x73u8, 0x61u8, 0x67u8, 0x65u8, 0x5fu8, 0x75u8, 0x73u8, 0x65u8, 0x63u8]
}

/// Whether `s` holds `usage_key()` at `i`.
pub open spec fn usage_key_at(s: Seq<u8>, i: int) -> bool {
    0 <= i && i + 10 <= s.len() && s.subrange(i, i + 10) == usage_key()
}

/// The end of the line that starts at `i`: the next newline, or the end.
pub open spec fn line_end(s: Seq<u8>, i: int) -> int
    decreases s.len() - i,
{
    if 0 <= i < s.len() && s[i] != 0x0a {
        line_end(s, i + 1)
    } else {
        i
    }
}

pub proof fn lemma_line_end_bounds(s: Seq<u8>, i: int)
    requires
        0 <= i <= s.len(),
    ensures
        i <= line_end(s, i) <= s.len(),
    decreases s.len() - i,
{
    if i < s.len() && s[i] != 0x0a {
        lemma_line_end_bounds(s, i + 1);
    }
}

/// The start of the first line at or after the line start `i` that begins
/// with `usage_usec`.
pub open spec fn usage_line(s: Seq<u8>, i: int) -> Option<int>
    decreases s.len() - i,
{
    if i < 0 || i >= s.len() {
        None
    } else if usage_key_at(s, i) {
        Some(i)
    } else if line_end(s, i) < s.len() {
        proof {
            lemma_line_end_bounds(s, i);
        }
        usage_line(s, line_end(s, i) + 1)
    } else {
        None
    }
}

/// The second white-space separated field of the line `s[a..e]`, parsed.
pub open spec fn second_field(s: Seq<u8>, a: int, e: int) -> Option<u64> {
    let w0 = ws_end(s, a, e);
    let t1 = token_end(s, w0, e);
    let w1 = ws_end(s, t1, e);
    if w1 < e {
        parse_u64_spec(s, w1, token_end(s, w1, e))
    } else {
        None
    }
}

/// The CPU time in `cpu.stat`: the number after `usage_usec`, or 0.
pub open spec fn cpu_usage_spec(s: Seq<u8>) -> u64 {
    match usage_line(s, 0) {
        Some(a) => match second_field(s, a, line_end(s, a)) {
            Some(v) => v,
            None => 0,
        },
        None => 0,
    }
}

/// The number that `memory.current` holds once trimmed, or 0.
pub open spec fn memory_current_spec(s: Seq<u8>) -> u64 {
    let a = ws_end(s, 0, s.len() as int);
    let b = token_end(s, a, s.len() as int);
    if ws_end(s, b, s.len() as int) == s.len() {
        match parse_u64_spec(s, a, b) {
            Some(v) => v,
            None => 0,
        }
    } else {
        0
    }
}

fn usage_key_at_exec(s: &[u8], i: usize) -> (r: bool)
    requires
        i <= s@.len(),
    ensures
        r == usage_key_at(s@, i as int),
{
    if s.len() - i < 10 {
        return false;
    }
    let r = s[i] == 0x75 && s[i + 1] == 0x73 && s[i + 2] == 0x61 && s[i + 3] == 0x67 && s[i + 4]
        == 0x65 && s[i + 5] == 0x5f && s[i + 6] == 0x75 && s[i + 7] == 0x73 && s[i + 8] == 0x65
        && s[i + 9] == 0x63;
    proof {
        if r {
            assert(s@.subrange(i as int, i + 10) =~= usage_key());
        } else {
            if s@.subrange(i as int, i + 10) == usage_key() {
                assert(s@.subrange(i as int, i + 10)[0] == s@[i as int]);
                assert(s@.subrange(i as int, i + 10)[1] == s@[i + 1]);
                assert(s@.subrange(i as int, i + 10)[2] == s@[i + 2]);
                assert(s@.subrange(i as int, i + 10)[3] == s@[i + 3]);
                assert(s@.subrange(i as int, i + 10)[4] == s@[i + 4]);
                assert(s@.subrange(i as int, i + 10)[5] == s@[i + 5]);
                assert(s@.subrange(i as int, i + 10)[6] == s@[i + 6]);
                assert(s@.subrange(i as int, i + 10)[7] == s@[i + 7]);
                assert(s@.subrange(i as int, i + 10)[8] == s@[i + 8]);
                assert(s@.subrange(i as int, i + 10)[9] == s@[i + 9]);
            }
        }
    }
    r
}

fn find_line_end(s: &[u8], i: usize) -> (r: usize)
    requires
        i <= s@.len(),
    ensures
        r == line_end(s@, i as int),
        i <= r <= s@.len(),
{
    let mut k = i;
    while k < s.len() && s[k] != 0x0a
        invariant
            i <= k <= s@.len(),
            line_end(s@, k as int) == line_end(s@, i as int),
        decreases s@.len() - k,
    {
        k = k + 1;
    }
    k
}

fn find_usage_line(s: &[u8]) -> (r: Option<usize>)
    ensures
        match r {
            Some(a) => usage_line(s@, 0) == Some(a as int) && a < s@.len(),
            None => usage_line(s@, 0) is None,
        },
{
    let mut i: usize = 0;
    while i < s.len()
        invariant
            i <= s@.len(),
            usage_line(s@, i as int) == usage_line(s@, 0),
        decreases s@.len() - i,
    {
        if usage_key_at_exec(s, i) {
            assert(usage_line(s@, i as int) == Some(i as int));
            return Some(i);
        }
        let e = find_line_end(s, i);
        if e < s.len() {
            assert(usage_line(s@, i as int) == usage_line(s@, e + 1));
            i = e + 1;
        } else {
            assert(usage_line(s@, i as int) is None);
            return None;
        }
    }
    None
}

/// Reads the CPU time, in microseconds, out of the text of `cpu.stat`.
pub fn parse_cpu_usage(s: &[u8]) -> (r: u64)
    ensures
        r == cpu_usage_spec(s@),
{
    let found = find_usage_line(s);
    match found {
        None => 0,
        Some(a) => {
            let e = find_line_end(s, a);
            let w0 = skip_ws(s, a, e);
            let t1 = skip_token(s, w0, e);
            let w1 = skip_ws(s, t1, e);
            if w1 < e {
                let t2 = skip_token(s, w1, e);
                match parse_u64(s, w1, t2) {
                    Some(v) => v,
                    None => 0,
                }
            } else {
                0
            }
        },
    }
}

/// Reads the memory figure, in bytes, out of the text of `memory.current`.
pub fn parse_memory_current(s: &[u8]) -> (r: u64)
    ensures
        r == memory_current_spec(s@),
{
    let n = s.len();
    let a = skip_ws(s, 0, n);
    let b = skip_token(s, a, n);
    if skip_ws(s, b, n) == n {
        match parse_u64(s, a, b) {
            Some(v) => v,
            None => 0,
        }
    } else {
        0
    }
}

/// The environment variable that a `KEY=VALUE` entry sets: split at the first
/// `=`; an entry without one sets the whole entry to the empty value.
pub open spec fn env_pair_spec(s: Seq<char>) -> (Seq<char>, Seq<char>) {
    if exists|i: int| 0 <= i < s.len() && s[i] == '=' {
        let i = choose|i: int|
            0 <= i < s.len() && s[i] == '=' && forall|j: int| 0 <= j < i ==> s[j] != '=';
        (s.take(i), s.skip(i + 1))
    } else {
        (s, Seq::empty())
    }
}

/// Splits an environment entry into its name and value.
pub fn split_env_pair(s: &str) -> (r: (String, String))
    ensures
        r.0@ == env_pair_spec(s@).0,
        r.1@ == env_pair_spec(s@).1,
{
    let n = s.unicode_len();
    let mut i: usize = 0;
    while i < n
        invariant
            n == s@.len(),
            i <= n,
            forall|j: int| 0 <= j < i ==> s@[j] != '=',
        decreases n - i,
    {
        if s.get_char(i) == '=' {
            let name = String::from_str(s.substring_char(0, i));
            let value = String::from_str(s.substring_char(i + 1, n));
            proof {
                let k = choose|k: int|
                    0 <= k < s@.len() && s@[k] == '=' && forall|j: int| 0 <= j < k ==> s@[j] != '=';
                assert(0 <= i < s@.len() && s@[i as int] == '=' && forall|j: int|
                    0 <= j < i ==> s@[j] != '=');
                assert(k == i) by {
                    if k < i {
                        assert(s@[k] != '=');
                    }
                    if k > i {
                        assert(s@[i as int] != '=');
                    }
                }
                assert(name@ =~= s@.take(i as int));
                assert(value@ =~= s@.skip(i + 1));
            }
            return (name, value);
        }
        i = i + 1;
    }
    (String::from_str(s), String::new())
}

/// The isolation steps the child performs, in order.
pub fn isolation_steps(limits: &ExecutionLimits) -> (r: Vec<IsolationStep>)
    ensures
        r@ == isolation_spec(*limits),
{
    let mut v: Vec<IsolationStep> = Vec::new();
    v.push(IsolationStep::Unshare);
    v.push(IsolationStep::LimitOpenFiles(limits.file_limit));
    match limits.gid {
        Some(g) => v.push(IsolationStep::SetGid(g)),
        None => {},
    }
    match limits.uid {
        Some(u) => v.push(IsolationStep::SetUid(u)),
        None => {},
    }
    v.push(IsolationStep::JoinCgroup);
    assert(v@ =~= isolation_spec(*limits));
    v
}

/// The result of a process that ended before its deadline.
pub fn finished_result(
    exit: ExitInfo,
    stdout: Vec<u8>,
    stderr: Vec<u8>,
    memory_current: &[u8],
    cpu_stat: &[u8],
    elapsed_ms: u64,
    limits: &ExecutionLimits,
) -> (r: StageResult)
    ensures
        r.status == classify_spec(exit),
        utf8(r.stdout@) == kept_text(stdout@, limits.output_limit_bytes),
        utf8(r.stdout@).len() <= limits.output_limit_bytes,
        utf8(r.stderr@) == kept_text(stderr@, limits.output_limit_bytes),
        utf8(r.stderr@).len() <= limits.output_limit_bytes,
        r.stdout@.len() <= limits.output_limit_bytes,
        r.stderr@.len() <= limits.output_limit_bytes,
        r.exit_code == exit.code,
        r.signal is Some <==> exit.signal is Some,
        exit.signal is Some ==> r.signal->0@ == signed_decimal_spec(exit.signal->0 as int),
        r.memory_usage == Some(memory_current_spec(memory_current@)),
        r.cpu_time == Some(cpu_usage_spec(cpu_stat@)),
        r.execution_time == Some(elapsed_ms),
{
    let status = classify_exit(exit);
    let signal = match exit.signal {
        Some(s) => Some(signed_decimal(s)),
        None => None,
    };
    StageResult {
        status,
        stdout: capture_text(stdout, limits.output_limit_bytes),
        stderr: capture_text(stderr, limits.output_limit_bytes),
        exit_code: exit.code,
        signal,
        memory_usage: Some(parse_memory_current(memory_current)),
        cpu_time: Some(parse_cpu_usage(cpu_stat)),
        execution_time: Some(elapsed_ms),
    }
}

/// The result of a process killed at its deadline.
pub fn timeout_result(
    stdout: Vec<u8>,
    stderr: Vec<u8>,
    memory_current: &[u8],
    cpu_stat: &[u8],
    elapsed_ms: u64,
    limits: &ExecutionLimits,
) -> (r: StageResult)
    ensures
        r.status == StageStatus::TimeLimitExceeded,
        r.signal is Some && r.signal->0@ == "SIGKILL"@,
        r.exit_code is None,
        utf8(r.stdout@) == kept_text(stdout@, limits.output_limit_bytes),
        utf8(r.stdout@).len() <= limits.output_limit_bytes,
        utf8(r.stderr@) == kept_text(stderr@, limits.output_limit_bytes),
        utf8(r.stderr@).len() <= limits.output_limit_bytes,
        r.stdout@.len() <= limits.output_limit_bytes,
        r.stderr@.len() <= limits.output_limit_bytes,
        r.memory_usage == Some(memory_current_spec(memory_current@)),
        r.cpu_time == Some(cpu_usage_spec(cpu_stat@)),
        r.execution_time == Some(elapsed_ms),
{
    StageResult {
        status: StageStatus::TimeLimitExceeded,
        stdout: capture_text(stdout, limits.output_limit_bytes),
        stderr: capture_text(stderr, limits.output_limit_bytes),
        exit_code: None,
        signal: Some(String::from_str("SIGKILL")),
        memory_usage: Some(parse_memory_current(memory_current)),
        cpu_time: Some(parse_cpu_usage(cpu_stat)),
        execution_time: Some(elapsed_ms),
    }
}

/// Where the cleanup of a job cgroup stands.
#[derive(Clone, Copy, Debug, PartialEq, Eq, Structural)]
pub enum CleanupPhase {
    Start,
    Checking,
    Removing,
    Killing,
    Pausing,
    Retrying,
    Done,
}

/// What the cleanup asks its driver to do next.
pub enum CleanupAction {
    /// Report whether the directory exists.
    CheckExists(String),
    /// Remove the (empty) directory and report whether that worked.
    RemoveDir(String),
    /// Write `1` to this `cgroup.kill` file; the outcome does not matter.
    KillAll(String),
    /// Sleep this many milliseconds.
    Pause(u64),
    /// Nothing is left to do.
    Finish,
}

/// The next phase of a cleanup in `phase` whose last action reported `ok`.
pub open spec fn cleanup_next_phase(phase: CleanupPhase, ok: bool) -> CleanupPhase {
    match phase {
        CleanupPhase::Start => CleanupPhase::Checking,
        CleanupPhase::Checking => if ok { CleanupPhase::Removing } else { CleanupPhase::Done },
        CleanupPhase::Removing => if ok { CleanupPhase::Done } else { CleanupPhase::Killing },
        CleanupPhase::Killing => CleanupPhase::Pausing,
        CleanupPhase::Pausing => CleanupPhase::Retrying,
        CleanupPhase::Retrying => CleanupPhase::Done,
        CleanupPhase::Done => CleanupPhase::Done,
    }
}

/// Whether `a` is the action that goes with entering `phase`, for job `id`.
pub open spec fn cleanup_action_for(phase: CleanupPhase, id: Seq<char>, a: CleanupAction) -> bool {
    match phase {
        CleanupPhase::Checking => a matches CleanupAction::CheckExists(p) && p@ == job_path_spec(id),
        CleanupPhase::Removing => a matches CleanupAction::RemoveDir(p) && p@ == job_path_spec(id),
        CleanupPhase::Killing => a matches CleanupAction::KillAll(p) && p@ == join_spec(
            job_path_spec(id),
            "cgroup.kill"@,
        ),
        CleanupPhase::Pausing => a == CleanupAction::Pause(CLEANUP_PAUSE_MS),
        CleanupPhase::Retrying => a matches CleanupAction::RemoveDir(p) && p@ == job_path_spec(id),
        _ => a is Finish,
    }
}

impl LinuxSandbox {
    /// A sandbox whose scratch space is under `root_path`.
    pub fn new(root_path: String) -> (r: LinuxSandbox)
        ensures
            r.root_path@ == root_path@,
    {
        LinuxSandbox { root_path }
    }

    /// The manager cgroup's path.
    pub fn manager_path() -> (r: String)
        ensures
            r@ == manager_path_spec(),
    {
        proof {
            reveal_strlit("/");
        }
        concat3(CGROUP_ROOT, "/", MANAGER_DIR)
    }

    /// The cgroup path of job `id`.
    pub fn job_path(id: &str) -> (r: String)
        ensures
            r@ == job_path_spec(id@),
    {
        let m = LinuxSandbox::manager_path();
        let mut r = concat3(m.as_str(), "/", "turbo-box-");
        r.append(id);
        proof {
            reveal_strlit("/");
        }
        r
    }

    /// The file whose `1` kills every process of job `id`'s cgroup.
    pub fn kill_file(id: &str) -> (r: String)
        ensures
            r@ == join_spec(job_path_spec(id@), "cgroup.kill"@),
    {
        join_path(LinuxSandbox::job_path(id).as_str(), "cgroup.kill")
    }

    /// The file a process writes `0` to in order to join job `id`'s cgroup.
    pub fn procs_file(id: &str) -> (r: String)
        ensures
            r@ == join_spec(job_path_spec(id@), "cgroup.procs"@),
    {
        join_path(LinuxSandbox::job_path(id).as_str(), "cgroup.procs")
    }

    /// The files to read for accounting: `memory.current` and `cpu.stat` of job `id`.
    pub fn accounting_files(id: &str) -> (r: (String, String))
        ensures
            r.0@ == join_spec(job_path_spec(id@), "memory.current"@),
            r.1@ == join_spec(job_path_spec(id@), "cpu.stat"@),
    {
        let j = LinuxSandbox::job_path(id);
        (join_path(j.as_str(), "memory.current"), join_path(j.as_str(), "cpu.stat"))
    }

    /// The steps that set up job `id`: the manager cgroup with its controllers
    /// enabled (best effort), the job cgroup, and its default limits.
    pub fn init_plan(&self, id: &str) -> (r: Vec<CgroupOp>)
        ensures
            r@.len() == 6,
            is_ensure_dir(r@[0], manager_path_spec(), true),
            is_write(
                r@[1],
                join_spec(manager_path_spec(), "cgroup.subtree_control"@),
                "+cpu +memory +pids"@,
                false,
            ),
            is_ensure_dir(r@[2], job_path_spec(id@), false),
            is_write(
                r@[3],
                join_spec(job_path_spec(id@), "memory.max"@),
                decimal_spec(crate::models::DEFAULT_MEMORY_LIMIT as nat),
                true,
            ),
            is_write(r@[4], join_spec(job_path_spec(id@), "memory.swap.max"@), "0"@, true),
            is_write(
                r@[5],
                join_spec(job_path_spec(id@), "pids.max"@),
                decimal_spec(crate::models::DEFAULT_PID_LIMIT as nat),
                true,
            ),
    {
        let m = LinuxSandbox::manager_path();
        let j = LinuxSandbox::job_path(id);
        let mut v: Vec<CgroupOp> = Vec::new();
        v.push(CgroupOp::EnsureDir { path: copy_str(m.as_str()), parents: true });
        v.push(
            CgroupOp::Write {
                path: join_path(m.as_str(), "cgroup.subtree_control"),
                content: String::from_str("+cpu +memory +pids"),
                required: false,
            },
        );
        v.push(CgroupOp::EnsureDir { path: copy_str(j.as_str()), parents: false });
        v.push(
            CgroupOp::Write {
                path: join_path(j.as_str(), "memory.max"),
                content: decimal(crate::models::DEFAULT_MEMORY_LIMIT),
                required: true,
            },
        );
        v.push(
            CgroupOp::Write {
                path: join_path(j.as_str(), "memory.swap.max"),
                content: String::from_str("0"),
                required: true,
            },
        );
        v.push(
            CgroupOp::Write {
                path: join_path(j.as_str(), "pids.max"),
                content: decimal(crate::models::DEFAULT_PID_LIMIT),
                required: true,
            },
        );
        v
    }

    /// The writes that apply `limits` to job `id`'s cgroup: memory (with swap
    /// off) when a memory limit is set, the process cap when one is set.
    pub fn limits_plan(&self, id: &str, limits: &ExecutionLimits) -> (r: Vec<CgroupOp>)
        ensures
            r@.len() == (if limits.memory_limit_bytes > 0 { 2int } else { 0int }) + (if limits.pid_limit > 0 {
                1int
            } else {
                0int
            }),
            limits.memory_limit_bytes > 0 ==> is_write(
                r@[0],
                join_spec(job_path_spec(id@), "memory.max"@),
                decimal_spec(limits.memory_limit_bytes as nat),
                true,
            ),
            limits.memory_limit_bytes > 0 ==> is_write(
                r@[1],
                join_spec(job_path_spec(id@), "memory.swap.max"@),
                "0"@,
                true,
            ),
            limits.pid_limit > 0 ==> is_write(
                r@[r@.len() - 1],
                join_spec(job_path_spec(id@), "pids.max"@),
                decimal_spec(limits.pid_limit as nat),
                true,
            ),
    {
        let j = LinuxSandbox::job_path(id);
        let mut v: Vec<CgroupOp> = Vec::new();
        if limits.memory_limit_bytes > 0 {
            v.push(
                CgroupOp::Write {
                    path: join_path(j.as_str(), "memory.max"),
                    content: decimal(limits.memory_limit_bytes),
                    required: true,
                },
            );
            v.push(
                CgroupOp::Write {
                    path: join_path(j.as_str(), "memory.swap.max"),
                    content: String::from_str("0"),
                    required: true,
                },
            );
        }
        if limits.pid_limit > 0 {
            v.push(
                CgroupOp::Write {
                    path: join_path(j.as_str(), "pids.max"),
                    content: decimal(limits.pid_limit),
                    required: true,
                },
            );
        }
        v
    }

    /// One step of the cleanup of job `id`: from `phase`, whose last action
    /// reported `ok`, to the next phase and the action that goes with it.
    /// The directory is removed if it exists; when that fails, the cgroup's
    /// processes are killed and, after a pause, removal is tried once more.
    pub fn cleanup_step(&self, id: &str, phase: CleanupPhase, ok: bool) -> (r: (CleanupPhase, CleanupAction))
        ensures
            r.0 == cleanup_next_phase(phase, ok),
            cleanup_action_for(r.0, id@, r.1),
    {
        let next = match phase {
            CleanupPhase::Start => CleanupPhase::Checking,
            CleanupPhase::Checking => if ok { CleanupPhase::Removing } else { CleanupPhase::Done },
            CleanupPhase::Removing => if ok { CleanupPhase::Done } else { CleanupPhase::Killing },
            CleanupPhase::Killing => CleanupPhase::Pausing,
            CleanupPhase::Pausing => CleanupPhase::Retrying,
            CleanupPhase::Retrying => CleanupPhase::Done,
            CleanupPhase::Done => CleanupPhase::Done,
        };
        let action = match next {
            CleanupPhase::Checking => CleanupAction::CheckExists(LinuxSandbox::job_path(id)),
            CleanupPhase::Removing => CleanupAction::RemoveDir(LinuxSandbox::job_path(id)),
            CleanupPhase::Killing => CleanupAction::KillAll(LinuxSandbox::kill_file(id)),
            CleanupPhase::Pausing => CleanupAction::Pause(CLEANUP_PAUSE_MS),
            CleanupPhase::Retrying => CleanupAction::RemoveDir(LinuxSandbox::job_path(id)),
            _ => CleanupAction::Finish,
        };
        (next, action)
    }
}

fn copy_str(s: &str) -> (r: String)
    ensures
        r@ == s@,
{
    String::from_str(s)
}

} // verus!
