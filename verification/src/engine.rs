//! The hook aggregator: runs every scanner applicable on the platform
//! over a point-in-time snapshot of the target, merges the findings into
//! one deterministically ordered result, counts findings per technique,
//! and keeps skip and warning reasons explicit. Opening the target and
//! taking the snapshot is the caller's concern; every decision made on
//! the snapshot is made here.

use vstd::prelude::*;
use vstd::relations::sorted_by;
use crate::error::GhostError;
use crate::record::{HookRecord, SpecRecord, record_leq, recs_view};
use crate::scan::{
    CodeSite, EnvEntry, ImportEntry, ModuleInfo, ScanConfig, TraceStatus, env_findings,
    import_findings, inline_findings, scan_environment, scan_imports, scan_inline, scan_trace,
    trace_findings,
};
use crate::sort::sort_records;
use crate::technique::{
    HookTechnique, Platform, all_techniques, all_techniques_vec, app_pred, applicable, napp_pred,
    spec_applicable,
};

verus! {

/// A point-in-time, read-only view of the target process. Each resource
/// that could not be read despite a successful open arrives as `None`
/// and is reported as a warning rather than failing the whole scan.
pub struct ProcessSnapshot {
    pub modules: Vec<ModuleInfo>,
    pub environment: Option<Vec<EnvEntry>>,
    pub imports: Option<Vec<ImportEntry>>,
    pub code_sites: Option<Vec<CodeSite>>,
    pub trace: Option<TraceStatus>,
}

/// The outcome of acquiring a handle on the target process.
pub enum OpenOutcome {
    Opened(ProcessSnapshot),
    NotFound,
    AccessDenied,
    InsufficientPrivileges,
}

/// The number of records found for one applicable technique.
pub struct TechniqueCount {
    pub technique: HookTechnique,
    pub count: usize,
}

/// One technique that was not attempted, with the reason.
pub struct SkipEntry {
    pub technique: HookTechnique,
    pub reason: String,
}

/// The engine's output for one scan: the target, the ordered evidence,
/// a count for every applicable technique (zero-filled), and the
/// techniques skipped on this platform. Constructed once per scan and
/// never mutated.
pub struct ScanResult {
    pub target_pid: u32,
    pub records: Vec<HookRecord>,
    pub counts: Vec<TechniqueCount>,
    pub skipped: Vec<SkipEntry>,
}

/// A scan result together with the non-fatal warnings that accompany it.
pub struct ScanOutcome {
    pub result: ScanResult,
    pub warnings: Vec<GhostError>,
}

// ---------------------------------------------------------------------
// What a correct outcome is
// ---------------------------------------------------------------------

/// The inline scanner's contribution to the merged findings.
pub open spec fn inline_part(p: Platform, s: ProcessSnapshot) -> Seq<SpecRecord> {
    if spec_applicable(p, HookTechnique::InlineHook) {
        match s.code_sites {
            Option::Some(cs) => inline_findings(s.modules@, cs@),
            Option::None => Seq::empty(),
        }
    } else {
        Seq::empty()
    }
}

/// The import-table scanner's contribution to the merged findings.
pub open spec fn imports_part(p: Platform, s: ProcessSnapshot) -> Seq<SpecRecord> {
    if spec_applicable(p, HookTechnique::ImportTableHook) {
        match s.imports {
            Option::Some(im) => import_findings(s.modules@, im@),
            Option::None => Seq::empty(),
        }
    } else {
        Seq::empty()
    }
}

/// The environment inspector's contribution to the merged findings.
pub open spec fn env_part(p: Platform, config: ScanConfig, s: ProcessSnapshot) -> Seq<SpecRecord> {
    if spec_applicable(p, HookTechnique::ForcedPreload) || spec_applicable(
        p,
        HookTechnique::DynamicLoaderInsertion,
    ) {
        match s.environment {
            Option::Some(env) => env_findings(
                env@,
                config.preload_vars@,
                config.insert_vars@,
                spec_applicable(p, HookTechnique::ForcedPreload),
                spec_applicable(p, HookTechnique::DynamicLoaderInsertion),
            ),
            Option::None => Seq::empty(),
        }
    } else {
        Seq::empty()
    }
}

/// The trace inspector's contribution to the merged findings.
pub open spec fn trace_part(p: Platform, config: ScanConfig, s: ProcessSnapshot) -> Seq<
    SpecRecord,
> {
    if spec_applicable(p, HookTechnique::TraceInjection) {
        match s.trace {
            Option::Some(t) => trace_findings(t, config.debugger_allowlist@),
            Option::None => Seq::empty(),
        }
    } else {
        Seq::empty()
    }
}

/// Everything the applicable scanners find, before ordering.
pub open spec fn merged_findings(p: Platform, config: ScanConfig, s: ProcessSnapshot) -> Seq<
    SpecRecord,
> {
    inline_part(p, s) + imports_part(p, s) + env_part(p, config, s) + trace_part(p, config, s)
}

/// How many of the records belong to a technique.
pub open spec fn count_technique(recs: Seq<SpecRecord>, t: HookTechnique) -> int {
    recs.filter(|r: SpecRecord| r.technique == t).len() as int
}

/// The counts list is exactly one zero-filled entry per technique of
/// `techs` applicable on the platform, in order, counting the records.
pub open spec fn counts_for(
    counts: Seq<TechniqueCount>,
    techs: Seq<HookTechnique>,
    p: Platform,
    recs: Seq<SpecRecord>,
) -> bool {
    &&& counts.len() == techs.filter(app_pred(p)).len()
    &&& forall|k: int|
        0 <= k < counts.len() ==> (#[trigger] counts[k]).technique == techs.filter(app_pred(p))[k]
            && counts[k].count as int == count_technique(recs, techs.filter(app_pred(p))[k])
}

/// The counts list is correct for the platform: one entry per applicable
/// technique, in the fixed order.
pub open spec fn counts_ok(counts: Seq<TechniqueCount>, p: Platform, recs: Seq<SpecRecord>) -> bool {
    counts_for(counts, all_techniques(), p, recs)
}

/// The reason string attached to every skipped technique.
pub open spec fn skip_reason() -> Seq<char> {
    "PlatformNotSupported: technique has no underlying mechanism on this platform"@
}

/// The skipped list names exactly the non-applicable techniques of
/// `techs`, in order, each with the platform-not-supported reason.
pub open spec fn skipped_for(sk: Seq<SkipEntry>, techs: Seq<HookTechnique>, p: Platform) -> bool {
    &&& sk.len() == techs.filter(napp_pred(p)).len()
    &&& forall|k: int|
        0 <= k < sk.len() ==> (#[trigger] sk[k]).technique == techs.filter(napp_pred(p))[k]
            && sk[k].reason@ == skip_reason()
}

/// The skipped list is correct for the platform.
pub open spec fn skipped_ok(sk: Seq<SkipEntry>, p: Platform) -> bool {
    skipped_for(sk, all_techniques(), p)
}

/// Whether the inline scanner was applicable but its input unreadable.
pub open spec fn inline_failed(p: Platform, s: ProcessSnapshot) -> bool {
    spec_applicable(p, HookTechnique::InlineHook) && s.code_sites is None
}

/// Whether the import scanner was applicable but its input unreadable.
pub open spec fn imports_failed(p: Platform, s: ProcessSnapshot) -> bool {
    spec_applicable(p, HookTechnique::ImportTableHook) && s.imports is None
}

/// Whether the environment inspector was applicable but its input
/// unreadable.
pub open spec fn env_failed(p: Platform, s: ProcessSnapshot) -> bool {
    (spec_applicable(p, HookTechnique::ForcedPreload) || spec_applicable(
        p,
        HookTechnique::DynamicLoaderInsertion,
    )) && s.environment is None
}

/// Whether the trace inspector was applicable but its input unreadable.
pub open spec fn trace_failed(p: Platform, s: ProcessSnapshot) -> bool {
    spec_applicable(p, HookTechnique::TraceInjection) && s.trace is None
}

/// A memory-enumeration warning with the given reason.
pub open spec fn mem_warn(e: GhostError, reason: Seq<char>) -> bool {
    e matches GhostError::MemoryEnumeration { reason: r } && r@ == reason
}

/// A thread-enumeration warning with the given reason.
pub open spec fn thread_warn(e: GhostError, reason: Seq<char>) -> bool {
    e matches GhostError::ThreadEnumeration { reason: r } && r@ == reason
}

/// The warnings are exactly one entry per applicable-but-unreadable
/// resource, in scanner order, with the matching kind and reason. No
/// non-fatal failure is silently suppressed.
pub open spec fn warnings_ok(w: Seq<GhostError>, p: Platform, s: ProcessSnapshot) -> bool {
    let n1: int = if inline_failed(p, s) { 1int } else { 0 };
    let n2: int = n1 + if imports_failed(p, s) { 1int } else { 0 };
    let n3: int = n2 + if env_failed(p, s) { 1int } else { 0 };
    let n4: int = n3 + if trace_failed(p, s) { 1int } else { 0 };
    &&& w.len() == n4
    &&& inline_failed(p, s) ==> mem_warn(w[0], "code bytes could not be read"@)
    &&& imports_failed(p, s) ==> mem_warn(w[n1], "import linkage structures could not be read"@)
    &&& env_failed(p, s) ==> mem_warn(w[n2], "environment block could not be read"@)
    &&& trace_failed(p, s) ==> thread_warn(w[n3], "process-control state could not be read"@)
}

/// What the engine promises of a successful scan: the target is echoed,
/// the records are the unique sorted arrangement of everything the
/// applicable scanners found, the counts cover every applicable
/// technique, the skipped list names every other technique, and every
/// unreadable resource left a warning.
pub open spec fn scan_outcome_ok(
    out: ScanOutcome,
    pid: u32,
    p: Platform,
    config: ScanConfig,
    s: ProcessSnapshot,
) -> bool {
    &&& out.result.target_pid == pid
    &&& recs_view(out.result.records@) == merged_findings(p, config, s).sort_by(record_leq())
    &&& sorted_by(recs_view(out.result.records@), record_leq())
    &&& counts_ok(out.result.counts@, p, recs_view(out.result.records@))
    &&& skipped_ok(out.result.skipped@, p)
    &&& warnings_ok(out.warnings@, p, s)
}

// ---------------------------------------------------------------------
// Counting
// ---------------------------------------------------------------------

/// Counts the records of one technique.
pub fn count_records(records: &Vec<HookRecord>, t: HookTechnique) -> (c: usize)
    ensures
        c as int == count_technique(recs_view(records@), t),
{
    let ghost whole = recs_view(records@);
    let ghost pred = |r: SpecRecord| r.technique == t;
    let mut c: usize = 0;
    let mut i: usize = 0;
    proof {
        assert(whole.take(0) =~= Seq::<SpecRecord>::empty());
        whole.take(0).lemma_filter_len(pred);
    }
    while i < records.len()
        invariant
            0 <= i <= records@.len(),
            whole == recs_view(records@),
            pred == (|r: SpecRecord| r.technique == t),
            c <= i,
            c as int == whole.take(i as int).filter(pred).len(),
        decreases records@.len() - i,
    {
        proof {
            assert(whole.take(i + 1) =~= whole.take(i as int).push(whole[i as int]));
            whole.take(i as int).lemma_filter_push(whole[i as int], pred);
        }
        if records[i].technique == t {
            c = c + 1;
        }
        i = i + 1;
    }
    proof {
        assert(whole.take(records@.len() as int) =~= whole);
    }
    c
}

// ---------------------------------------------------------------------
// The aggregator
// ---------------------------------------------------------------------

/// Runs the hook-detection engine against one target process.
///
/// The caller supplies the process identifier it asked about, the
/// platform, the immutable scan configuration, and the outcome of
/// opening the target and snapshotting its resources. A handle that
/// could not be acquired is the only fatal path; after a successful
/// open, every per-technique failure is demoted to a skip entry or a
/// warning alongside a best-effort result.
pub fn detect_hook_injection(
    pid: u32,
    platform: Platform,
    config: &ScanConfig,
    outcome: OpenOutcome,
) -> (r: Result<ScanOutcome, GhostError>)
    ensures
        pid == 0 ==> (r matches Err(e) && e matches GhostError::InvalidInput { .. }),
        pid != 0 ==> match outcome {
            OpenOutcome::NotFound => r matches Err(e) && e matches GhostError::ProcessNotFound {
                pid: p,
            } && p == pid,
            OpenOutcome::AccessDenied => r matches Err(e) && e matches GhostError::AccessDenied {
                pid: p,
            } && p == pid,
            OpenOutcome::InsufficientPrivileges => r matches Err(e) && e
                matches GhostError::InsufficientPrivileges,
            OpenOutcome::Opened(s) => r matches Ok(out) && scan_outcome_ok(
                out,
                pid,
                platform,
                *config,
                s,
            ),
        },
{
    if pid == 0 {
        return Err(
            GhostError::InvalidInput {
                message: "process identifier 0 never names a live process".to_owned(),
            },
        );
    }
    match outcome {
        OpenOutcome::NotFound => Err(GhostError::ProcessNotFound { pid }),
        OpenOutcome::AccessDenied => Err(GhostError::AccessDenied { pid }),
        OpenOutcome::InsufficientPrivileges => Err(GhostError::InsufficientPrivileges),
        OpenOutcome::Opened(s) => {
            let mut merged: Vec<HookRecord> = Vec::new();
            let mut warnings: Vec<GhostError> = Vec::new();
            // Inline code scanner.
            if applicable(platform, HookTechnique::InlineHook) {
                match &s.code_sites {
                    Option::Some(cs) => {
                        let mut v = scan_inline(&s.modules, cs);
                        merged.append(&mut v);
                    }
                    Option::None => {
                        warnings.push(
                            GhostError::MemoryEnumeration {
                                reason: "code bytes could not be read".to_owned(),
                            },
                        );
                    }
                }
            }
            proof {
                assert(recs_view(merged@) =~= inline_part(platform, s));
            }
            // Import table scanner.
            if applicable(platform, HookTechnique::ImportTableHook) {
                match &s.imports {
                    Option::Some(im) => {
                        let mut v = scan_imports(&s.modules, im);
                        merged.append(&mut v);
                    }
                    Option::None => {
                        warnings.push(
                            GhostError::MemoryEnumeration {
                                reason: "import linkage structures could not be read".to_owned(),
                            },
                        );
                    }
                }
            }
            proof {
                assert(recs_view(merged@) =~= inline_part(platform, s) + imports_part(platform, s));
            }
            // Environment inspector.
            let preload_on = applicable(platform, HookTechnique::ForcedPreload);
            let insert_on = applicable(platform, HookTechnique::DynamicLoaderInsertion);
            if preload_on || insert_on {
                match &s.environment {
                    Option::Some(env) => {
                        let mut v = scan_environment(env, config, platform);
                        merged.append(&mut v);
                    }
                    Option::None => {
                        warnings.push(
                            GhostError::MemoryEnumeration {
                                reason: "environment block could not be read".to_owned(),
                            },
                        );
                    }
                }
            }
            proof {
                assert(recs_view(merged@) =~= inline_part(platform, s) + imports_part(platform, s)
                    + env_part(platform, *config, s));
            }
            // Trace attachment inspector.
            if applicable(platform, HookTechnique::TraceInjection) {
                match &s.trace {
                    Option::Some(t) => {
                        let mut v = scan_trace(t, config);
                        merged.append(&mut v);
                    }
                    Option::None => {
                        warnings.push(
                            GhostError::ThreadEnumeration {
                                reason: "process-control state could not be read".to_owned(),
                            },
                        );
                    }
                }
            }
            proof {
                assert(recs_view(merged@) =~= merged_findings(platform, *config, s));
                assert(warnings_ok(warnings@, platform, s));
            }
            // Aggregation: one deterministic order, then counts.
            let sorted_records = sort_records(merged);
            let mut counts: Vec<TechniqueCount> = Vec::new();
            let mut skipped: Vec<SkipEntry> = Vec::new();
            let techs = all_techniques_vec();
            let ghost recs = recs_view(sorted_records@);
            let mut i: usize = 0;
            proof {
                assert(all_techniques().take(0) =~= Seq::<HookTechnique>::empty());
            }
            while i < techs.len()
                invariant
                    0 <= i <= techs@.len(),
                    techs@ == all_techniques(),
                    recs == recs_view(sorted_records@),
                    counts_for(counts@, all_techniques().take(i as int), platform, recs),
                    skipped_for(skipped@, all_techniques().take(i as int), platform),
                decreases techs@.len() - i,
            {
                let t = techs[i];
                proof {
                    assert(all_techniques().take(i + 1) =~= all_techniques().take(i as int).push(t));
                    all_techniques().take(i as int).lemma_filter_push(t, app_pred(platform));
                    all_techniques().take(i as int).lemma_filter_push(t, napp_pred(platform));
                }
                if applicable(platform, t) {
                    let c = count_records(&sorted_records, t);
                    counts.push(TechniqueCount { technique: t, count: c });
                } else {
                    skipped.push(
                        SkipEntry {
                            technique: t,
                            reason:
                                "PlatformNotSupported: technique has no underlying mechanism on this platform".to_owned(),
                        },
                    );
                }
                i = i + 1;
            }
            proof {
                assert(all_techniques().take(techs@.len() as int) =~= all_techniques());
            }
            let result = ScanResult { target_pid: pid, records: sorted_records, counts, skipped };
            Ok(ScanOutcome { result, warnings })
        }
    }
}

} // verus!
