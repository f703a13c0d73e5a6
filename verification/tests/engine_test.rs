//! Tests for the aggregator: fatal paths, counts, skips, warnings,
//! ordering, and idempotence on a fixed snapshot.

use ghost_core::engine::{detect_hook_injection, OpenOutcome, ProcessSnapshot};
use ghost_core::error::GhostError;
use ghost_core::scan::{EnvEntry, ScanConfig, TraceStatus};
use ghost_core::technique::{HookTechnique, Platform};

fn empty_config() -> ScanConfig {
    ScanConfig {
        preload_vars: vec![String::from("LD_PRELOAD")],
        insert_vars: vec![String::from("DYLD_INSERT_LIBRARIES")],
        debugger_allowlist: vec![String::from("gdb")],
    }
}

fn clean_snapshot() -> ProcessSnapshot {
    ProcessSnapshot {
        modules: vec![],
        environment: Some(vec![]),
        imports: Some(vec![]),
        code_sites: Some(vec![]),
        trace: Some(TraceStatus {
            tracer_pid: 0,
            tracer_name: String::new(),
        }),
    }
}

#[test]
fn clean_scan_succeeds_with_all_counts_present() {
    let config = empty_config();
    let r = detect_hook_injection(
        4242,
        Platform::Linux,
        &config,
        OpenOutcome::Opened(clean_snapshot()),
    );
    let out = r.expect("clean scan must succeed");
    assert_eq!(out.result.target_pid, 4242);
    assert!(out.result.records.is_empty());
    assert!(out.warnings.is_empty());
    // Linux: every technique but DynamicLoaderInsertion is applicable.
    assert_eq!(out.result.counts.len(), 4);
    for c in &out.result.counts {
        assert_eq!(c.count, 0);
        assert!(!matches!(c.technique, HookTechnique::DynamicLoaderInsertion));
    }
}

#[test]
fn zero_pid_is_invalid_input() {
    let config = empty_config();
    let r = detect_hook_injection(
        0,
        Platform::Linux,
        &config,
        OpenOutcome::Opened(clean_snapshot()),
    );
    assert!(matches!(r, Err(GhostError::InvalidInput { .. })));
}

#[test]
fn missing_process_is_process_not_found() {
    let config = empty_config();
    let r = detect_hook_injection(99999, Platform::Linux, &config, OpenOutcome::NotFound);
    match r {
        Err(GhostError::ProcessNotFound { pid }) => assert_eq!(pid, 99999),
        _ => panic!("expected ProcessNotFound"),
    }
}

#[test]
fn denied_process_is_access_denied() {
    let config = empty_config();
    let r = detect_hook_injection(1, Platform::Linux, &config, OpenOutcome::AccessDenied);
    match r {
        Err(GhostError::AccessDenied { pid }) => assert_eq!(pid, 1),
        _ => panic!("expected AccessDenied"),
    }
    let r2 = detect_hook_injection(
        1,
        Platform::Linux,
        &config,
        OpenOutcome::InsufficientPrivileges,
    );
    assert!(matches!(r2, Err(GhostError::InsufficientPrivileges)));
}

#[test]
fn inapplicable_technique_is_skipped_not_counted() {
    let config = empty_config();
    let r = detect_hook_injection(
        7,
        Platform::Linux,
        &config,
        OpenOutcome::Opened(clean_snapshot()),
    );
    let out = r.unwrap();
    // DynamicLoaderInsertion has no mechanism on this platform: it is in
    // `skipped` with a PlatformNotSupported-derived reason and has no count.
    assert_eq!(out.result.skipped.len(), 1);
    let sk = &out.result.skipped[0];
    assert!(matches!(sk.technique, HookTechnique::DynamicLoaderInsertion));
    assert!(sk.reason.contains("PlatformNotSupported"));
    assert!(out
        .result
        .counts
        .iter()
        .all(|c| !matches!(c.technique, HookTechnique::DynamicLoaderInsertion)));

    // On a platform with no mechanisms at all, everything is skipped.
    let r2 = detect_hook_injection(
        7,
        Platform::Other,
        &config,
        OpenOutcome::Opened(clean_snapshot()),
    );
    let out2 = r2.unwrap();
    assert_eq!(out2.result.counts.len(), 0);
    assert_eq!(out2.result.skipped.len(), 5);
}

#[test]
fn unreadable_environment_yields_warning_not_failure() {
    let config = empty_config();
    let mut snap = clean_snapshot();
    snap.environment = None;
    let r = detect_hook_injection(7, Platform::Linux, &config, OpenOutcome::Opened(snap));
    let out = r.unwrap();
    assert_eq!(out.warnings.len(), 1);
    assert!(matches!(
        out.warnings[0],
        GhostError::MemoryEnumeration { .. }
    ));
}

#[test]
fn unreadable_trace_state_yields_thread_warning() {
    let config = empty_config();
    let mut snap = clean_snapshot();
    snap.trace = None;
    let r = detect_hook_injection(7, Platform::Linux, &config, OpenOutcome::Opened(snap));
    let out = r.unwrap();
    assert_eq!(out.warnings.len(), 1);
    assert!(matches!(
        out.warnings[0],
        GhostError::ThreadEnumeration { .. }
    ));
}

fn preload_snapshot(value: &str) -> ProcessSnapshot {
    let mut snap = clean_snapshot();
    snap.environment = Some(vec![
        EnvEntry {
            name: String::from("PATH"),
            value: String::from("/usr/bin"),
        },
        EnvEntry {
            name: String::from("LD_PRELOAD"),
            value: String::from(value),
        },
    ]);
    snap
}

#[test]
fn forced_preload_variable_is_reported_and_disappears() {
    let config = empty_config();
    let r = detect_hook_injection(
        7,
        Platform::Linux,
        &config,
        OpenOutcome::Opened(preload_snapshot("/tmp/x.so")),
    );
    let out = r.unwrap();
    assert_eq!(out.result.records.len(), 1);
    let rec = &out.result.records[0];
    assert!(matches!(rec.technique, HookTechnique::ForcedPreload));
    assert_eq!(rec.location.module, "LD_PRELOAD");
    assert_eq!(
        rec.evidence,
        "environment variable forces load of /tmp/x.so"
    );
    let fp_count = out
        .result
        .counts
        .iter()
        .find(|c| matches!(c.technique, HookTechnique::ForcedPreload))
        .unwrap();
    assert_eq!(fp_count.count, 1);

    // Removing the variable makes the record disappear on the next scan.
    let r2 = detect_hook_injection(
        7,
        Platform::Linux,
        &config,
        OpenOutcome::Opened(clean_snapshot()),
    );
    assert!(r2.unwrap().result.records.is_empty());
}

#[test]
fn empty_preload_value_is_not_a_finding() {
    let config = empty_config();
    let r = detect_hook_injection(
        7,
        Platform::Linux,
        &config,
        OpenOutcome::Opened(preload_snapshot("")),
    );
    assert!(r.unwrap().result.records.is_empty());
}

#[test]
fn preload_variable_is_skipped_on_macos_but_insert_is_not() {
    let config = empty_config();
    let mut snap = clean_snapshot();
    snap.environment = Some(vec![
        EnvEntry {
            name: String::from("LD_PRELOAD"),
            value: String::from("/tmp/x.so"),
        },
        EnvEntry {
            name: String::from("DYLD_INSERT_LIBRARIES"),
            value: String::from("/tmp/y.dylib"),
        },
    ]);
    let r = detect_hook_injection(7, Platform::MacOs, &config, OpenOutcome::Opened(snap));
    let out = r.unwrap();
    assert_eq!(out.result.records.len(), 1);
    assert!(matches!(
        out.result.records[0].technique,
        HookTechnique::DynamicLoaderInsertion
    ));
    assert_eq!(
        out.result.records[0].evidence,
        "environment variable forces load of /tmp/y.dylib"
    );
}

#[test]
fn foreign_tracer_is_reported_allowlisted_one_is_not() {
    let config = empty_config();
    let mut snap = clean_snapshot();
    snap.trace = Some(TraceStatus {
        tracer_pid: 1234,
        tracer_name: String::from("gdb"),
    });
    let r = detect_hook_injection(7, Platform::Linux, &config, OpenOutcome::Opened(snap));
    assert!(r.unwrap().result.records.is_empty());

    let mut snap2 = clean_snapshot();
    snap2.trace = Some(TraceStatus {
        tracer_pid: 1234,
        tracer_name: String::from("injector"),
    });
    let r2 = detect_hook_injection(7, Platform::Linux, &config, OpenOutcome::Opened(snap2));
    let out = r2.unwrap();
    assert_eq!(out.result.records.len(), 1);
    assert!(matches!(
        out.result.records[0].technique,
        HookTechnique::TraceInjection
    ));
}

#[test]
fn repeated_scan_of_same_snapshot_is_identical() {
    let config = empty_config();
    let out1 = detect_hook_injection(
        7,
        Platform::Linux,
        &config,
        OpenOutcome::Opened(preload_snapshot("/tmp/x.so")),
    )
    .unwrap();
    let out2 = detect_hook_injection(
        7,
        Platform::Linux,
        &config,
        OpenOutcome::Opened(preload_snapshot("/tmp/x.so")),
    )
    .unwrap();
    assert_eq!(out1.result.records.len(), out2.result.records.len());
    for (a, b) in out1.result.records.iter().zip(out2.result.records.iter()) {
        assert_eq!(a.technique.order_index(), b.technique.order_index());
        assert_eq!(a.location.module, b.location.module);
        assert_eq!(a.location.symbol, b.location.symbol);
        assert_eq!(a.location.address, b.location.address);
        assert_eq!(a.evidence, b.evidence);
    }
    assert_eq!(out1.result.counts.len(), out2.result.counts.len());
    for (a, b) in out1.result.counts.iter().zip(out2.result.counts.iter()) {
        assert_eq!(a.technique.order_index(), b.technique.order_index());
        assert_eq!(a.count, b.count);
    }
}
