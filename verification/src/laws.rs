//! Laws of the engine that relate several operations: determinism of
//! repeated scans, visibility of forced-preload markers, and the
//! separation of counted and skipped techniques.

use vstd::prelude::*;
use crate::engine::{
    ProcessSnapshot, ScanOutcome, SkipEntry, TechniqueCount, counts_ok, env_part, merged_findings,
    scan_outcome_ok, skipped_ok,
};
use crate::record::{
    SpecRecord, record_leq, record_wf, recs_view, lemma_record_le_total_ordering,
};
use crate::scan::{
    CodeSite, EnvEntry, ImportEntry, ModuleInfo, ScanConfig, contains_str, env_entry_findings,
    env_findings, import_findings, inline_findings, preload_record,
};
use crate::technique::{HookTechnique, Platform, all_techniques, spec_applicable, technique_order};

verus! {

/// Idempotence: two scans of the same untouched target, with the same
/// configuration, yield identical records, counts and skip lists —
/// whatever order the scanners ran in either time.
pub proof fn lemma_scan_idempotent(
    o1: ScanOutcome,
    o2: ScanOutcome,
    pid: u32,
    p: Platform,
    config: ScanConfig,
    s: ProcessSnapshot,
)
    requires
        scan_outcome_ok(o1, pid, p, config, s),
        scan_outcome_ok(o2, pid, p, config, s),
    ensures
        recs_view(o1.result.records@) == recs_view(o2.result.records@),
        o1.result.counts@.len() == o2.result.counts@.len(),
        forall|k: int|
            0 <= k < o1.result.counts@.len() ==> (#[trigger] o1.result.counts@[k]).technique
                == o2.result.counts@[k].technique && o1.result.counts@[k].count
                == o2.result.counts@[k].count,
        o1.result.skipped@.len() == o2.result.skipped@.len(),
        forall|k: int|
            0 <= k < o1.result.skipped@.len() ==> (#[trigger] o1.result.skipped@[k]).technique
                == o2.result.skipped@[k].technique,
{
}

/// An environment variable on the forced-preload denylist, present with
/// a non-empty value, always yields its record among the environment
/// findings.
pub proof fn lemma_env_var_detected(
    env: Seq<EnvEntry>,
    preload_vars: Seq<String>,
    insert_vars: Seq<String>,
    preload_on: bool,
    insert_on: bool,
    i: int,
)
    requires
        0 <= i < env.len(),
        preload_on,
        contains_str(preload_vars, env[i].name@),
        env[i].value@.len() > 0,
    ensures
        env_findings(env, preload_vars, insert_vars, preload_on, insert_on).contains(
            preload_record(env[i]),
        ),
    decreases env.len(),
{
    let f = env_findings(env, preload_vars, insert_vars, preload_on, insert_on);
    let prefix = env_findings(env.drop_last(), preload_vars, insert_vars, preload_on, insert_on);
    if i == env.len() - 1 {
        let entry = env_entry_findings(env.last(), preload_vars, insert_vars, preload_on, insert_on);
        assert(entry[0] == preload_record(env[i]));
        assert(f[prefix.len() as int] == preload_record(env[i]));
    } else {
        assert(env.drop_last()[i] == env[i]);
        lemma_env_var_detected(env.drop_last(), preload_vars, insert_vars, preload_on, insert_on, i);
        let j = choose|j: int| 0 <= j < prefix.len() && prefix[j] == preload_record(env[i]);
        assert(f[j] == preload_record(env[i]));
    }
}

/// With no denylisted forced-preload variable carrying a non-empty
/// value, the environment findings hold no forced-preload record: the
/// record disappears once the variable is removed.
pub proof fn lemma_env_clean_no_preload(
    env: Seq<EnvEntry>,
    preload_vars: Seq<String>,
    insert_vars: Seq<String>,
    preload_on: bool,
    insert_on: bool,
)
    requires
        forall|i: int|
            0 <= i < env.len() ==> !(contains_str(preload_vars, (#[trigger] env[i]).name@)
                && env[i].value@.len() > 0),
    ensures
        forall|j: int|
            0 <= j < env_findings(env, preload_vars, insert_vars, preload_on, insert_on).len()
                ==> (#[trigger] env_findings(env, preload_vars, insert_vars, preload_on, insert_on)[j]).technique
                != HookTechnique::ForcedPreload,
    decreases env.len(),
{
    if env.len() > 0 {
        assert(forall|i: int|
            0 <= i < env.drop_last().len() ==> (#[trigger] env.drop_last()[i]) == env[i]);
        lemma_env_clean_no_preload(env.drop_last(), preload_vars, insert_vars, preload_on, insert_on);
    }
}

/// A forced-preload marker in the target's environment always surfaces
/// in the final, sorted records of a successful scan.
pub proof fn lemma_detect_reports_forced_preload(
    out: ScanOutcome,
    pid: u32,
    p: Platform,
    config: ScanConfig,
    s: ProcessSnapshot,
    i: int,
)
    requires
        scan_outcome_ok(out, pid, p, config, s),
        spec_applicable(p, HookTechnique::ForcedPreload),
        s.environment is Some,
        0 <= i < s.environment.unwrap()@.len(),
        contains_str(config.preload_vars@, s.environment.unwrap()@[i].name@),
        s.environment.unwrap()@[i].value@.len() > 0,
    ensures
        recs_view(out.result.records@).contains(preload_record(s.environment.unwrap()@[i])),
{
    broadcast use vstd::seq_lib::group_to_multiset_ensures;

    let env = s.environment.unwrap()@;
    let rec = preload_record(env[i]);
    lemma_env_var_detected(
        env,
        config.preload_vars@,
        config.insert_vars@,
        spec_applicable(p, HookTechnique::ForcedPreload),
        spec_applicable(p, HookTechnique::DynamicLoaderInsertion),
        i,
    );
    let ep = env_part(p, config, s);
    let merged = merged_findings(p, config, s);
    assert(ep.contains(rec));
    let j = choose|j: int| 0 <= j < ep.len() && ep[j] == rec;
    assert(merged[crate::engine::inline_part(p, s).len() + crate::engine::imports_part(
        p,
        s,
    ).len() + j] == rec);
    assert(merged.contains(rec));
    lemma_record_le_total_ordering();
    merged.lemma_sort_by_ensures(record_leq());
    let sorted = merged.sort_by(record_leq());
    assert(merged.to_multiset().count(rec) > 0);
    assert(sorted.contains(rec));
}

/// Every import finding carries the import-table technique.
proof fn lemma_import_findings_technique(modules: Seq<ModuleInfo>, imports: Seq<ImportEntry>)
    ensures
        forall|j: int|
            0 <= j < import_findings(modules, imports).len() ==> (#[trigger] import_findings(
                modules,
                imports,
            )[j]).technique == HookTechnique::ImportTableHook,
    decreases imports.len(),
{
    if imports.len() > 0 {
        lemma_import_findings_technique(modules, imports.drop_last());
        let f = import_findings(modules, imports);
        let prefix = import_findings(modules, imports.drop_last());
        assert forall|j: int|
            0 <= j < f.len() implies (#[trigger] f[j]).technique
            == HookTechnique::ImportTableHook by {
            if j < prefix.len() {
                assert(f[j] == prefix[j]);
            }
        }
    }
}

/// Every inline finding carries the inline-hook technique.
proof fn lemma_inline_findings_technique(modules: Seq<ModuleInfo>, sites: Seq<CodeSite>)
    ensures
        forall|j: int|
            0 <= j < inline_findings(modules, sites).len() ==> (#[trigger] inline_findings(
                modules,
                sites,
            )[j]).technique == HookTechnique::InlineHook,
    decreases sites.len(),
{
    if sites.len() > 0 {
        lemma_inline_findings_technique(modules, sites.drop_last());
        let f = inline_findings(modules, sites);
        let prefix = inline_findings(modules, sites.drop_last());
        assert forall|j: int|
            0 <= j < f.len() implies (#[trigger] f[j]).technique == HookTechnique::InlineHook by {
            if j < prefix.len() {
                assert(f[j] == prefix[j]);
            }
        }
    }
}

/// Once no denylisted forced-preload variable carries a non-empty value,
/// a successful scan holds no forced-preload record at all: the record
/// disappears on the next scan after the variable is removed.
pub proof fn lemma_detect_clean_env_no_forced_preload(
    out: ScanOutcome,
    pid: u32,
    p: Platform,
    config: ScanConfig,
    s: ProcessSnapshot,
)
    requires
        scan_outcome_ok(out, pid, p, config, s),
        s.environment is Some ==> forall|i: int|
            0 <= i < s.environment.unwrap()@.len() ==> !(contains_str(
                config.preload_vars@,
                (#[trigger] s.environment.unwrap()@[i]).name@,
            ) && s.environment.unwrap()@[i].value@.len() > 0),
    ensures
        forall|j: int|
            0 <= j < recs_view(out.result.records@).len() ==> (#[trigger] recs_view(
                out.result.records@,
            )[j]).technique != HookTechnique::ForcedPreload,
{
    broadcast use vstd::seq_lib::group_to_multiset_ensures;

    let merged = merged_findings(p, config, s);
    assert(forall|k: int|
        0 <= k < merged.len() ==> (#[trigger] merged[k]).technique
            != HookTechnique::ForcedPreload) by {
        match s.code_sites {
            Option::Some(cs) => lemma_inline_findings_technique(s.modules@, cs@),
            Option::None => {}
        }
        match s.imports {
            Option::Some(im) => lemma_import_findings_technique(s.modules@, im@),
            Option::None => {}
        }
        match s.environment {
            Option::Some(env) => lemma_env_clean_no_preload(
                env@,
                config.preload_vars@,
                config.insert_vars@,
                spec_applicable(p, HookTechnique::ForcedPreload),
                spec_applicable(p, HookTechnique::DynamicLoaderInsertion),
            ),
            Option::None => {}
        }
    }
    lemma_record_le_total_ordering();
    merged.lemma_sort_by_ensures(record_leq());
    let sorted = merged.sort_by(record_leq());
    assert forall|j: int|
        0 <= j < sorted.len() implies (#[trigger] sorted[j]).technique
        != HookTechnique::ForcedPreload by {
        assert(sorted.contains(sorted[j]));
        assert(sorted.to_multiset().count(sorted[j]) > 0);
        assert(merged.contains(sorted[j]));
        let k = choose|k: int| 0 <= k < merged.len() && merged[k] == sorted[j];
        assert(merged[k].technique != HookTechnique::ForcedPreload);
    }
}

/// Every environment finding is well formed.
proof fn lemma_env_findings_wf(
    env: Seq<EnvEntry>,
    preload_vars: Seq<String>,
    insert_vars: Seq<String>,
    preload_on: bool,
    insert_on: bool,
)
    ensures
        forall|j: int|
            0 <= j < env_findings(env, preload_vars, insert_vars, preload_on, insert_on).len()
                ==> record_wf(
                #[trigger] env_findings(env, preload_vars, insert_vars, preload_on, insert_on)[j],
            ),
    decreases env.len(),
{
    if env.len() > 0 {
        lemma_env_findings_wf(env.drop_last(), preload_vars, insert_vars, preload_on, insert_on);
        let f = env_findings(env, preload_vars, insert_vars, preload_on, insert_on);
        let prefix = env_findings(env.drop_last(), preload_vars, insert_vars, preload_on, insert_on);
        let entry = env_entry_findings(env.last(), preload_vars, insert_vars, preload_on, insert_on);
        assert forall|j: int| 0 <= j < f.len() implies record_wf(f[j]) by {
            if j < prefix.len() {
                assert(f[j] == prefix[j]);
            } else {
                assert(f[j] == entry[j - prefix.len()]);
            }
        }
    }
}

/// Every import finding is well formed: it names its symbol and carries
/// the bound address.
proof fn lemma_import_findings_wf(modules: Seq<ModuleInfo>, imports: Seq<ImportEntry>)
    ensures
        forall|j: int|
            0 <= j < import_findings(modules, imports).len() ==> record_wf(
                #[trigger] import_findings(modules, imports)[j],
            ),
    decreases imports.len(),
{
    if imports.len() > 0 {
        lemma_import_findings_wf(modules, imports.drop_last());
        let f = import_findings(modules, imports);
        let prefix = import_findings(modules, imports.drop_last());
        assert forall|j: int| 0 <= j < f.len() implies record_wf(f[j]) by {
            if j < prefix.len() {
                assert(f[j] == prefix[j]);
            }
        }
    }
}

/// Every inline finding is well formed: it names its symbol and carries
/// the function address.
proof fn lemma_inline_findings_wf(modules: Seq<ModuleInfo>, sites: Seq<CodeSite>)
    ensures
        forall|j: int|
            0 <= j < inline_findings(modules, sites).len() ==> record_wf(
                #[trigger] inline_findings(modules, sites)[j],
            ),
    decreases sites.len(),
{
    if sites.len() > 0 {
        lemma_inline_findings_wf(modules, sites.drop_last());
        let f = inline_findings(modules, sites);
        let prefix = inline_findings(modules, sites.drop_last());
        assert forall|j: int| 0 <= j < f.len() implies record_wf(f[j]) by {
            if j < prefix.len() {
                assert(f[j] == prefix[j]);
            }
        }
    }
}

/// Every record a successful scan emits is well formed: the location
/// fields its technique mandates are present — inline and import-table
/// evidence always names a symbol and carries an address.
pub proof fn lemma_scan_records_well_formed(
    out: ScanOutcome,
    pid: u32,
    p: Platform,
    config: ScanConfig,
    s: ProcessSnapshot,
)
    requires
        scan_outcome_ok(out, pid, p, config, s),
    ensures
        forall|j: int|
            0 <= j < recs_view(out.result.records@).len() ==> record_wf(
                #[trigger] recs_view(out.result.records@)[j],
            ),
{
    broadcast use vstd::seq_lib::group_to_multiset_ensures;

    let merged = merged_findings(p, config, s);
    assert(forall|j: int| 0 <= j < merged.len() ==> record_wf(#[trigger] merged[j])) by {
        match s.code_sites {
            Option::Some(cs) => lemma_inline_findings_wf(s.modules@, cs@),
            Option::None => {}
        }
        match s.imports {
            Option::Some(im) => lemma_import_findings_wf(s.modules@, im@),
            Option::None => {}
        }
        match s.environment {
            Option::Some(env) => lemma_env_findings_wf(
                env@,
                config.preload_vars@,
                config.insert_vars@,
                spec_applicable(p, HookTechnique::ForcedPreload),
                spec_applicable(p, HookTechnique::DynamicLoaderInsertion),
            ),
            Option::None => {}
        }
    }
    lemma_record_le_total_ordering();
    merged.lemma_sort_by_ensures(record_leq());
    let sorted = merged.sort_by(record_leq());
    assert forall|j: int| 0 <= j < sorted.len() implies record_wf(#[trigger] sorted[j]) by {
        assert(sorted.contains(sorted[j]));
        assert(sorted.to_multiset().count(sorted[j]) > 0);
        assert(merged.contains(sorted[j]));
        let k = choose|k: int| 0 <= k < merged.len() && merged[k] == sorted[j];
        assert(record_wf(merged[k]));
    }
}

/// Counts and skips partition the techniques: every counted technique is
/// applicable on the platform, and every non-applicable technique stands
/// in the skip list.
pub proof fn lemma_counts_skips_partition(
    counts: Seq<TechniqueCount>,
    sk: Seq<SkipEntry>,
    p: Platform,
    recs: Seq<SpecRecord>,
)
    requires
        counts_ok(counts, p, recs),
        skipped_ok(sk, p),
    ensures
        forall|k: int|
            0 <= k < counts.len() ==> spec_applicable(p, (#[trigger] counts[k]).technique),
        forall|t: HookTechnique|
            !spec_applicable(p, t) ==> exists|k: int|
                0 <= k < sk.len() && (#[trigger] sk[k]).technique == t,
{
    broadcast use vstd::seq_lib::group_filter_ensures;

    let apps = all_techniques().filter(crate::technique::app_pred(p));
    assert forall|k: int|
        0 <= k < counts.len() implies spec_applicable(p, (#[trigger] counts[k]).technique) by {
        all_techniques().lemma_filter_pred(crate::technique::app_pred(p), k);
        assert(counts[k].technique == apps[k]);
    }
    let skips = all_techniques().filter(crate::technique::napp_pred(p));
    assert forall|t: HookTechnique| !spec_applicable(p, t) implies exists|k: int|
        0 <= k < sk.len() && (#[trigger] sk[k]).technique == t by {
        assert(all_techniques()[technique_order(t)] == t);
        assert(all_techniques().contains(t));
        assert(skips.contains(t));
        let k = choose|k: int| 0 <= k < skips.len() && skips[k] == t;
        assert(sk[k].technique == t);
    }
}

} // verus!
