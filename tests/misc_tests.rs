use venom_memory::error::VenomError;
use venom_memory::models::{run_safety_analysis, LeakReport, MemoryEvent, MemoryEventKind};
use venom_memory::shm::shm_name;
use venom_memory::templates::{generate, magic, Language, ProjectConfig, Template};

#[test]
fn shm_name_prefixes_namespace() {
    assert_eq!(shm_name("t1").unwrap(), "/venom_t1");
    assert_eq!(shm_name("").unwrap(), "/venom_");
    match shm_name(&"x".repeat(300)) {
        Err(VenomError::NamespaceTooLong { max, got }) => assert_eq!((max, got), (248, 300)),
        _ => panic!("expected NamespaceTooLong"),
    }
}

fn report(findings: Vec<&str>) -> LeakReport {
    LeakReport {
        success: findings.is_empty(),
        findings: findings.into_iter().map(|s| s.to_string()).collect(),
        events: Vec::new(),
        file_path: "a.c".to_string(),
    }
}

fn overflow(line: usize) -> MemoryEvent {
    MemoryEvent {
        kind: MemoryEventKind::BufferOverflow,
        variable: "buf".to_string(),
        line,
        context: format!("overflow at line {}", line),
    }
}

#[test]
fn safety_analysis_merges_overflows() {
    let r = run_safety_analysis(Ok(report(vec![])), Ok(vec![overflow(3), overflow(9)])).unwrap();
    assert!(!r.success);
    assert_eq!(r.findings, vec!["overflow at line 3".to_string(), "overflow at line 9".to_string()]);
    assert_eq!(r.events.len(), 2);
    assert_eq!(r.events[1].line, 9);
    assert_eq!(r.events[0].kind, MemoryEventKind::BufferOverflow);
    assert_eq!(r.file_path, "a.c");
}

#[test]
fn safety_analysis_keeps_clean_report() {
    let r = run_safety_analysis(Ok(report(vec![])), Ok(vec![])).unwrap();
    assert!(r.success);
    let r = run_safety_analysis(Ok(report(vec!["leak"])), Err("no parse".to_string())).unwrap();
    assert!(!r.success);
    assert_eq!(r.findings, vec!["leak".to_string()]);
    let e = run_safety_analysis(Err("missing".to_string()), Ok(vec![overflow(1)]));
    assert_eq!(e.err().unwrap(), "missing");
}

fn project(name: &str) -> ProjectConfig {
    ProjectConfig {
        name: name.to_string(),
        channel: "sys".to_string(),
        data_size: 1024,
        cmd_slots: 8,
        max_clients: 4,
        output_dir: "out".to_string(),
    }
}

#[test]
fn c_project_plan() {
    let plan = generate(&project("mon"), Language::C);
    let dirs: Vec<&str> = plan.dirs.iter().map(|d| d.as_str()).collect();
    assert_eq!(dirs, vec!["out/shared", "out/daemon/src", "out/client/src"]);
    let files: Vec<(&str, Template)> =
        plan.files.iter().map(|f| (f.path.as_str(), f.template)).collect();
    assert_eq!(
        files,
        vec![
            ("out/shared/protocol.h", Template::Protocol),
            ("out/daemon/src/main.c", Template::DaemonMain),
            ("out/daemon/Makefile", Template::DaemonMakefile),
            ("out/client/src/main.c", Template::ClientMain),
            ("out/client/Makefile", Template::ClientMakefile),
            ("out/README.md", Template::Readme),
        ]
    );
}

#[test]
fn named_files_follow_project_name() {
    let nim = generate(&project("my-app"), Language::Nim);
    assert!(nim.files.iter().any(|f| f.path == "out/my-app.nimble" && f.template == Template::Manifest));
    let flutter = generate(&project("my-app"), Language::Flutter);
    assert!(flutter.files.iter().any(|f| f.path == "out/bin/my_app.dart"));
    assert_eq!(flutter.dirs.len(), 4);
    let rust = generate(&project("r"), Language::Rust);
    assert_eq!(rust.files.len(), 7);
    assert_eq!(rust.files[2].path, "out/.cargo/config.toml");
}

#[test]
fn channel_magic_sums_bytes() {
    assert_eq!(magic(""), 0x564E4F);
    assert_eq!(magic("t1"), 0x564EF4);
}
