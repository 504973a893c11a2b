use turbo::cache::{cache_key, cache_message_bytes, mirror_plan, select_evictions, sort_by_name, MirrorOp, TreeEntry};
use turbo::config::TurboConfig;
use turbo::encoding::file_bytes;
use turbo::error::TurboError;
use turbo::models::{FileRequest, JobRequest};
use turbo::package::{
    find_latest_version, package_infos, resolve_version, sort_listing, PackageCache,
    PackageDefinition, PackageManager, PackageRepository, PackageYaml,
};
use turbo::queue::{job_channel, job_queue_key, result_key, wait_step, WaitAction, WaitEvent, WaitPhase, RESULT_TTL_SECS};

fn request(files: Vec<(Option<&str>, &str)>) -> JobRequest {
    JobRequest {
        language: "python".to_string(),
        version: Some("3.14.2".to_string()),
        files: files
            .into_iter()
            .map(|(n, c)| FileRequest { name: n.map(|s| s.to_string()), content: c.to_string(), encoding: None })
            .collect(),
        testcases: None,
        args: None,
        stdin: None,
        run_timeout: None,
        compile_timeout: None,
        run_memory_limit: None,
        compile_memory_limit: None,
    }
}

#[test]
fn cache_key_of_empty_message_is_sha256_of_nothing() {
    let mut r = request(vec![]);
    r.language = String::new();
    r.version = Some(String::new());
    assert_eq!(cache_key(&r, ""), "e3b0c44298fc1c149afbf4c8996fb92427ae41e4649b934ca495991b7852b855");
}

#[test]
fn cache_key_of_abc() {
    let mut r = request(vec![]);
    r.language = "a".to_string();
    r.version = Some("b".to_string());
    assert_eq!(cache_key(&r, "c"), "ba7816bf8f01cfea414140de5dae2223b00361a396177a9cb410ff61f20015ad");
}

#[test]
fn cache_message_layout() {
    let mut r = request(vec![(Some("b.py"), "2"), (Some("a.py"), "1"), (None, "0")]);
    r.version = None;
    assert_eq!(cache_message_bytes(&r, "S"), b"pythonlatestSmain0a.py1b.py2".to_vec());
}

#[test]
fn cache_key_ignores_file_order() {
    let a = request(vec![(Some("a.py"), "1"), (Some("b.py"), "2")]);
    let b = request(vec![(Some("b.py"), "2"), (Some("a.py"), "1")]);
    assert_eq!(cache_key(&a, "s"), cache_key(&b, "s"));
    assert_eq!(cache_key(&a, "s").len(), 64);
    assert_ne!(cache_key(&a, "s"), cache_key(&a, "t"));
    let c = request(vec![(Some("a.py"), "1"), (Some("b.py"), "3")]);
    assert_ne!(cache_key(&a, "s"), cache_key(&c, "s"));
}

#[test]
fn files_sort_by_name_unnamed_first_and_stable() {
    let r = request(vec![(Some("b"), "1"), (None, "2"), (Some("a"), "3"), (Some("a"), "4"), (None, "5")]);
    assert_eq!(sort_by_name(&r.files), vec![1, 4, 2, 3, 0]);
}

#[test]
fn file_encodings() {
    let f = FileRequest { name: None, content: "héllo".to_string(), encoding: Some("utf8".to_string()) };
    assert_eq!(file_bytes(&f), Some("héllo".as_bytes().to_vec()));
    let f = FileRequest { name: None, content: "DEADbeef".to_string(), encoding: Some("hex".to_string()) };
    assert_eq!(file_bytes(&f), Some(vec![0xde, 0xad, 0xbe, 0xef]));
    let f = FileRequest { name: None, content: "abc".to_string(), encoding: Some("hex".to_string()) };
    assert_eq!(file_bytes(&f), None);
    let f = FileRequest { name: None, content: "SGVsbG8sIHdvcmxkIQ==".to_string(), encoding: Some("base64".to_string()) };
    assert_eq!(file_bytes(&f), Some(b"Hello, world!".to_vec()));
    let f = FileRequest { name: None, content: "SGk=".to_string(), encoding: Some("base64".to_string()) };
    assert_eq!(file_bytes(&f), Some(b"Hi".to_vec()));
    let f = FileRequest { name: None, content: "AP8A".to_string(), encoding: Some("base64".to_string()) };
    assert_eq!(file_bytes(&f), Some(vec![0x00, 0xff, 0x00]));
    let f = FileRequest { name: None, content: "SGV".to_string(), encoding: Some("base64".to_string()) };
    assert_eq!(file_bytes(&f), None);
    let f = FileRequest { name: None, content: "S=GV".to_string(), encoding: Some("base64".to_string()) };
    assert_eq!(file_bytes(&f), None);
    let f = FileRequest { name: None, content: "TQ==TQ==".to_string(), encoding: Some("base64".to_string()) };
    assert_eq!(file_bytes(&f), None);
    let f = FileRequest { name: None, content: "x".to_string(), encoding: Some("rot13".to_string()) };
    assert_eq!(file_bytes(&f), None);
}

#[test]
fn eviction_picks_oldest_beyond_the_bound() {
    assert_eq!(select_evictions(&vec![5, 1, 9, 3], 2), vec![1, 3]);
    assert_eq!(select_evictions(&vec![5, 1, 9, 3], 4), Vec::<usize>::new());
    assert_eq!(select_evictions(&vec![2, 2, 1], 1), vec![2, 0]);
    let many: Vec<u64> = (0..502u64).rev().collect();
    assert_eq!(select_evictions(&many, turbo::cache::MAX_CACHE_ENTRIES), vec![501, 500]);
}

#[test]
fn mirror_plan_links_or_copies() {
    let entries = vec![
        TreeEntry { rel: "sub".to_string(), is_dir: true },
        TreeEntry { rel: "sub/a.pyc".to_string(), is_dir: false },
    ];
    let plan = mirror_plan("/cache/k", "/tmp/j", &entries, true);
    assert_eq!(plan.len(), 3);
    assert!(matches!(plan[0], MirrorOp::MakeDir(ref d) if d == "/tmp/j"));
    assert!(matches!(plan[1], MirrorOp::MakeDir(ref d) if d == "/tmp/j/sub"));
    assert!(matches!(plan[2], MirrorOp::LinkFile { ref from, ref to } if from == "/cache/k/sub/a.pyc" && to == "/tmp/j/sub/a.pyc"));
    let plan = mirror_plan("/tmp/j", "/cache/k", &entries, false);
    assert!(matches!(plan[2], MirrorOp::CopyFile { ref from, ref to } if from == "/tmp/j/sub/a.pyc" && to == "/cache/k/sub/a.pyc"));
}

fn names(v: &[&str]) -> Vec<String> {
    v.iter().map(|s| s.to_string()).collect()
}

#[test]
fn latest_version_is_the_highest_semver() {
    let v = names(&["3.9.1", "3.10.0", "notes", "3.10.0-rc1", "2.7.18"]);
    assert_eq!(find_latest_version(&v).ok(), Some("3.10.0".to_string()));
    let v = names(&["1.0.0-beta", "0.9.9"]);
    assert_eq!(find_latest_version(&v).ok(), Some("1.0.0-beta".to_string()));
    let v = names(&["1.0.0-alpha", "1.0.0-beta", "1.0.0-alpha.1"]);
    assert_eq!(find_latest_version(&v).ok(), Some("1.0.0-beta".to_string()));
    let v = names(&["1.0.0-alpha.10", "1.0.0-alpha.9", "1.0.0-alpha.beta"]);
    assert_eq!(find_latest_version(&v).ok(), Some("1.0.0-alpha.beta".to_string()));
    let v = names(&["1.0.0-rc.2", "1.0.0-rc.10"]);
    assert_eq!(find_latest_version(&v).ok(), Some("1.0.0-rc.10".to_string()));
    let v = names(&["1.0.0+build.1", "1.0.0+build.2"]);
    assert_eq!(find_latest_version(&v).ok(), Some("1.0.0+build.2".to_string()));
}

#[test]
fn no_version_is_an_error() {
    assert!(matches!(find_latest_version(&names(&["latest", "v1"])), Err(TurboError::Package(_))));
    assert!(matches!(find_latest_version(&Vec::new()), Err(TurboError::Package(_))));
}

#[test]
fn requested_version_is_kept() {
    let v = names(&["1.0.0", "2.0.0"]);
    assert_eq!(resolve_version("go", &Some("1.0.0".to_string()), &v).ok(), Some("1.0.0".to_string()));
    assert_eq!(resolve_version("go", &Some("9.9.9".to_string()), &v).ok(), Some("9.9.9".to_string()));
    assert_eq!(resolve_version("go", &Some("latest".to_string()), &v).ok(), Some("2.0.0".to_string()));
    assert_eq!(resolve_version("go", &None, &v).ok(), Some("2.0.0".to_string()));
}

#[test]
fn missing_version_without_any_semver_is_runtime_not_found() {
    match resolve_version("python", &None, &names(&["notes", "tmp"])) {
        Err(TurboError::RuntimeNotFound(l, v)) => {
            assert_eq!(l, "python");
            assert_eq!(v, "latest");
        }
        _ => panic!("expected RuntimeNotFound"),
    }
}

#[test]
fn listing_is_by_name_then_newest_version() {
    let entries = vec![
        ("python".to_string(), "3.9.0".to_string()),
        ("gcc".to_string(), "12.1.0".to_string()),
        ("python".to_string(), "3.12.1".to_string()),
        ("python".to_string(), "scratch".to_string()),
        ("gcc".to_string(), "9.4.0".to_string()),
        ("gcc".to_string(), "12.1.0-alpha".to_string()),
        ("gcc".to_string(), "12.1.0-beta".to_string()),
    ];
    assert_eq!(
        sort_listing(entries),
        vec![
            ("gcc".to_string(), "12.1.0".to_string()),
            ("gcc".to_string(), "12.1.0-beta".to_string()),
            ("gcc".to_string(), "12.1.0-alpha".to_string()),
            ("gcc".to_string(), "9.4.0".to_string()),
            ("python".to_string(), "3.12.1".to_string()),
            ("python".to_string(), "3.9.0".to_string()),
        ]
    );
}

#[test]
fn package_cache_lists_what_it_holds() {
    let infos = package_infos(
        vec![("gcc".to_string(), "12.1.0".to_string()), ("python".to_string(), "3.12.1".to_string())],
        &vec![true, false],
    );
    let cache = PackageCache::new(infos);
    let l = cache.list();
    assert_eq!(l.len(), 2);
    assert_eq!(l[0].name, "gcc");
    assert!(l[0].installed);
    assert_eq!(l[1].version, "3.12.1");
    assert!(!l[1].installed);
}

#[test]
fn manager_paths() {
    let m = PackageManager::new("/home/u/.turbo".to_string(), "./packages".to_string());
    assert_eq!(m.runtimes_dir, "/home/u/.turbo/runtimes");
    assert_eq!(m.installer.runtimes_dir, "/home/u/.turbo/runtimes");
    assert_eq!(m.repository.root, "./packages");
    assert_eq!(m.install_path("python", "3.12.1"), "/home/u/.turbo/runtimes/python/3.12.1");
    let def = PackageDefinition {
        path: "./packages/python/3.12.1".to_string(),
        yaml: PackageYaml { name: "python".to_string(), version: "3.12.1".to_string(), description: None, aliases: None, compiled: None },
    };
    assert_eq!(m.installer.install_dir(&def), "/home/u/.turbo/runtimes/python/3.12.1");
    let repo = PackageRepository::new("/pk".to_string());
    assert_eq!(repo.package_dir("go"), "/pk/go");
    assert_eq!(repo.missing_package("go").message(), "Package error: Package 'go' not found in repository at /pk");
    assert_eq!(PackageRepository::missing_version("go", "1.0.0").message(), "Runtime not found: go:1.0.0");
}

#[test]
fn config_defaults_and_settings() {
    let mut c = TurboConfig::new();
    assert_eq!(c.server.host, "0.0.0.0");
    assert_eq!(c.server.port, 4000);
    assert_eq!(c.sandbox.max_concurrent_jobs, 64);
    assert_eq!(c.sandbox.memory_limit_mb, 512);
    assert!(c.apply_setting("server.port", "8080").is_ok());
    assert_eq!(c.server.port, 8080);
    assert!(matches!(c.apply_setting("server.port", "70000"), Err(TurboError::Config(_))));
    assert_eq!(c.server.port, 8080);
    assert!(matches!(c.apply_setting("sandbox.memory_limit_mb", "lots"), Err(TurboError::Config(_))));
    assert!(c.apply_setting("redis.url", "redis://r:6379").is_ok());
    assert_eq!(c.redis.url, "redis://r:6379");
    assert!(c.apply_setting("paths.turbo_home", "/opt/turbo").is_ok());
    assert_eq!(c.paths.turbo_home, "/opt/turbo");
    assert!(c.apply_setting("unknown.key", "x").is_ok());
}

#[test]
fn error_texts() {
    assert_eq!(TurboError::Sandbox("x".to_string()).message(), "Sandbox error: x");
    assert_eq!(TurboError::CompilationFailed.message(), "Compilation failed");
    assert_eq!(TurboError::RuntimeNotFound("py".to_string(), "3".to_string()).message(), "Runtime not found: py:3");
}

#[test]
fn queue_keys() {
    assert_eq!(job_queue_key(), "turbo:jobs");
    assert_eq!(job_channel("7"), "turbo:job:7");
    assert_eq!(result_key("7"), "turbo:result:7");
    assert_eq!(RESULT_TTL_SECS, 3600);
}

#[test]
fn waiter_subscribes_before_reading() {
    let (p, a) = wait_step("7", WaitPhase::Start, WaitEvent::Done);
    assert!(matches!(a, WaitAction::Subscribe(ref c) if c == "turbo:job:7"));
    let (p, a) = wait_step("7", p, WaitEvent::Done);
    assert!(matches!(a, WaitAction::Read(ref k) if k == "turbo:result:7"));
    let (delivered, a) = wait_step("7", p, WaitEvent::Stored(Some("{}".to_string())));
    assert_eq!(delivered, WaitPhase::Done);
    assert!(matches!(a, WaitAction::Deliver(ref d) if d == "{}"));
    let (p, a) = wait_step("7", p, WaitEvent::Stored(None));
    assert!(matches!(a, WaitAction::Listen));
    let (_, a) = wait_step("7", p, WaitEvent::Message("{\"x\":1}".to_string()));
    assert!(matches!(a, WaitAction::Deliver(ref d) if d == "{\"x\":1}"));
}
