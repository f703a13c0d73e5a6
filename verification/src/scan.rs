//! The per-technique scanners. Each one is a pure classifier: it takes a
//! point-in-time view of one resource of the target process (environment
//! block, import bindings, leading code bytes, trace state) and returns
//! exactly the records its rules call for. Reading those resources from
//! the operating system is the caller's concern.

use vstd::prelude::*;
use crate::record::{HookLocation, HookRecord, SpecRecord, recs_view};
use crate::technique::{HookTechnique, Platform, spec_applicable, applicable};

verus! {

/// One loaded module of the target: name, base address and size in bytes.
pub struct ModuleInfo {
    pub name: String,
    pub base: u64,
    pub size: u64,
}

/// One variable of the target's environment block.
pub struct EnvEntry {
    pub name: String,
    pub value: String,
}

/// One resolved import binding: the importing module, the symbol, the
/// address the loader bound it to, and the module expected to export it.
pub struct ImportEntry {
    pub module: String,
    pub symbol: String,
    pub resolved: u64,
    pub provider: String,
}

/// The leading instruction bytes of one commonly-hooked exported
/// function, together with its owning module and resolved address.
pub struct CodeSite {
    pub module: String,
    pub symbol: String,
    pub address: u64,
    pub bytes: Vec<u8>,
}

/// The target's process-control state: the identifier and name of an
/// attached tracer, or `tracer_pid == 0` when none is attached.
pub struct TraceStatus {
    pub tracer_pid: u32,
    pub tracer_name: String,
}

/// Immutable scan configuration, supplied by the caller at construction
/// time and never mutated by the engine: the denylists of loader-forcing
/// environment variable names and the allow-list of legitimate debuggers.
pub struct ScanConfig {
    pub preload_vars: Vec<String>,
    pub insert_vars: Vec<String>,
    pub debugger_allowlist: Vec<String>,
}

/// Whether some string of `l` reads as `s`.
pub open spec fn contains_str(l: Seq<String>, s: Seq<char>) -> bool {
    exists|i: int| 0 <= i < l.len() && l[i]@ == s
}

/// Decides membership of a string in a list of strings.
pub fn contains_name(list: &Vec<String>, s: &String) -> (r: bool)
    ensures
        r == contains_str(list@, s@),
{
    let mut i: usize = 0;
    while i < list.len()
        invariant
            0 <= i <= list@.len(),
            forall|j: int| 0 <= j < i ==> list@[j]@ != s@,
        decreases list@.len() - i,
    {
        if list[i] == *s {
            return true;
        }
        i = i + 1;
    }
    false
}

// ---------------------------------------------------------------------
// Environment inspector
// ---------------------------------------------------------------------

/// The record reported for a forced-preload variable.
pub open spec fn preload_record(e: EnvEntry) -> SpecRecord {
    SpecRecord {
        technique: HookTechnique::ForcedPreload,
        module: e.name@,
        symbol: Option::None,
        address: Option::None,
        evidence: "environment variable forces load of "@ + e.value@,
    }
}

/// The record reported for a loader-insertion variable.
pub open spec fn insert_record(e: EnvEntry) -> SpecRecord {
    SpecRecord {
        technique: HookTechnique::DynamicLoaderInsertion,
        module: e.name@,
        symbol: Option::None,
        address: Option::None,
        evidence: "environment variable forces load of "@ + e.value@,
    }
}

/// The records one environment variable yields: one per denylist it is on,
/// provided its technique applies and its value is non-empty (a
/// present-but-empty variable is not a finding).
pub open spec fn env_entry_findings(
    e: EnvEntry,
    preload_vars: Seq<String>,
    insert_vars: Seq<String>,
    preload_on: bool,
    insert_on: bool,
) -> Seq<SpecRecord> {
    (if preload_on && contains_str(preload_vars, e.name@) && e.value@.len() > 0 {
        seq![preload_record(e)]
    } else {
        Seq::empty()
    }) + (if insert_on && contains_str(insert_vars, e.name@) && e.value@.len() > 0 {
        seq![insert_record(e)]
    } else {
        Seq::empty()
    })
}

/// All records the environment block yields, in block order.
pub open spec fn env_findings(
    env: Seq<EnvEntry>,
    preload_vars: Seq<String>,
    insert_vars: Seq<String>,
    preload_on: bool,
    insert_on: bool,
) -> Seq<SpecRecord>
    decreases env.len(),
{
    if env.len() == 0 {
        Seq::empty()
    } else {
        env_findings(env.drop_last(), preload_vars, insert_vars, preload_on, insert_on)
            + env_entry_findings(env.last(), preload_vars, insert_vars, preload_on, insert_on)
    }
}

/// Scans the environment block for library-injection markers: variables
/// on the platform's denylists whose (non-empty) value forces a library
/// load. Yields `ForcedPreload` and `DynamicLoaderInsertion` records,
/// each gated on the technique applying to the platform.
pub fn scan_environment(env: &Vec<EnvEntry>, config: &ScanConfig, platform: Platform) -> (r: Vec<
    HookRecord,
>)
    ensures
        recs_view(r@) == env_findings(
            env@,
            config.preload_vars@,
            config.insert_vars@,
            spec_applicable(platform, HookTechnique::ForcedPreload),
            spec_applicable(platform, HookTechnique::DynamicLoaderInsertion),
        ),
{
    let preload_on = applicable(platform, HookTechnique::ForcedPreload);
    let insert_on = applicable(platform, HookTechnique::DynamicLoaderInsertion);
    let ghost pv = config.preload_vars@;
    let ghost iv = config.insert_vars@;
    let mut out: Vec<HookRecord> = Vec::new();
    let mut i: usize = 0;
    while i < env.len()
        invariant
            0 <= i <= env@.len(),
            preload_on == spec_applicable(platform, HookTechnique::ForcedPreload),
            insert_on == spec_applicable(platform, HookTechnique::DynamicLoaderInsertion),
            pv == config.preload_vars@,
            iv == config.insert_vars@,
            recs_view(out@) == env_findings(env@.take(i as int), pv, iv, preload_on, insert_on),
        decreases env@.len() - i,
    {
        let e = &env[i];
        let nonempty = e.value.as_str().unicode_len() > 0;
        if preload_on && nonempty && contains_name(&config.preload_vars, &e.name) {
            let mut evidence = "environment variable forces load of ".to_owned();
            evidence.append(e.value.as_str());
            let rec = HookRecord {
                technique: HookTechnique::ForcedPreload,
                location: HookLocation {
                    module: e.name.clone(),
                    symbol: Option::None,
                    address: Option::None,
                },
                evidence,
            };
            proof {
                assert(rec@ =~= preload_record(env@[i as int]));
            }
            out.push(rec);
        }
        if insert_on && nonempty && contains_name(&config.insert_vars, &e.name) {
            let mut evidence = "environment variable forces load of ".to_owned();
            evidence.append(e.value.as_str());
            let rec = HookRecord {
                technique: HookTechnique::DynamicLoaderInsertion,
                location: HookLocation {
                    module: e.name.clone(),
                    symbol: Option::None,
                    address: Option::None,
                },
                evidence,
            };
            proof {
                assert(rec@ =~= insert_record(env@[i as int]));
            }
            out.push(rec);
        }
        i = i + 1;
        proof {
            assert(env@.take(i as int).drop_last() =~= env@.take(i - 1));
            assert(env@.take(i as int).last() == env@[i - 1]);
            assert(recs_view(out@) =~= env_findings(env@.take(i as int), pv, iv, preload_on, insert_on));
        }
    }
    proof {
        assert(env@.take(env@.len() as int) =~= env@);
    }
    out
}

// ---------------------------------------------------------------------
// Import table scanner
// ---------------------------------------------------------------------

/// The first module of the list bearing a name, if any.
pub open spec fn find_module(modules: Seq<ModuleInfo>, name: Seq<char>) -> Option<ModuleInfo>
    decreases modules.len(),
{
    if modules.len() == 0 {
        Option::None
    } else if modules[0].name@ == name {
        Option::Some(modules[0])
    } else {
        find_module(modules.drop_first(), name)
    }
}

/// Whether an address lies inside a module's address range.
pub open spec fn in_module_range(m: ModuleInfo, addr: int) -> bool {
    m.base <= addr && addr < m.base + m.size
}

/// Whether an import binding is hooked: its expected provider module is
/// known, and the bound address lies outside that module's range. A
/// provider that cannot be found means the entry cannot be verified and
/// is excluded from findings (false positives are worse than misses).
pub open spec fn import_hooked(modules: Seq<ModuleInfo>, ie: ImportEntry) -> bool {
    match find_module(modules, ie.provider@) {
        Option::Some(m) => !in_module_range(m, ie.resolved as int),
        Option::None => false,
    }
}

/// The record reported for a hooked import binding.
pub open spec fn import_record(ie: ImportEntry) -> SpecRecord {
    SpecRecord {
        technique: HookTechnique::ImportTableHook,
        module: ie.module@,
        symbol: Option::Some(ie.symbol@),
        address: Option::Some(ie.resolved),
        evidence: "import resolves outside expected module "@ + ie.provider@,
    }
}

/// All records the import bindings yield, in binding order.
pub open spec fn import_findings(modules: Seq<ModuleInfo>, imports: Seq<ImportEntry>) -> Seq<
    SpecRecord,
>
    decreases imports.len(),
{
    if imports.len() == 0 {
        Seq::empty()
    } else {
        import_findings(modules, imports.drop_last()) + (if import_hooked(
            modules,
            imports.last(),
        ) {
            seq![import_record(imports.last())]
        } else {
            Seq::empty()
        })
    }
}

/// Looks a module up by name, returning its base and size.
pub fn find_module_range(modules: &Vec<ModuleInfo>, name: &String) -> (r: Option<(u64, u64)>)
    ensures
        match find_module(modules@, name@) {
            Option::Some(m) => r == Option::Some((m.base, m.size)),
            Option::None => r is None,
        },
{
    let mut i: usize = 0;
    proof {
        assert(modules@.skip(0) =~= modules@);
    }
    while i < modules.len()
        invariant
            0 <= i <= modules@.len(),
            find_module(modules@, name@) == find_module(modules@.skip(i as int), name@),
        decreases modules@.len() - i,
    {
        proof {
            assert(modules@.skip(i as int)[0] == modules@[i as int]);
            assert(modules@.skip(i as int).drop_first() =~= modules@.skip(i + 1));
        }
        if modules[i].name == *name {
            return Option::Some((modules[i].base, modules[i].size));
        }
        i = i + 1;
    }
    Option::None
}

/// Scans the resolved import bindings: every binding whose expected
/// provider module is known but whose bound address lies outside that
/// module's range yields an `ImportTableHook` record. Bindings whose
/// provider cannot be found are treated as "cannot verify" and excluded.
pub fn scan_imports(modules: &Vec<ModuleInfo>, imports: &Vec<ImportEntry>) -> (r: Vec<HookRecord>)
    ensures
        recs_view(r@) == import_findings(modules@, imports@),
{
    let mut out: Vec<HookRecord> = Vec::new();
    let mut i: usize = 0;
    while i < imports.len()
        invariant
            0 <= i <= imports@.len(),
            recs_view(out@) == import_findings(modules@, imports@.take(i as int)),
        decreases imports@.len() - i,
    {
        let ie = &imports[i];
        let hooked: bool = match find_module_range(modules, &ie.provider) {
            Option::Some((base, size)) => !(base <= ie.resolved && (ie.resolved as u128) < (
            base as u128) + (size as u128)),
            Option::None => false,
        };
        if hooked {
            let mut evidence = "import resolves outside expected module ".to_owned();
            evidence.append(ie.provider.as_str());
            let rec = HookRecord {
                technique: HookTechnique::ImportTableHook,
                location: HookLocation {
                    module: ie.module.clone(),
                    symbol: Option::Some(ie.symbol.clone()),
                    address: Option::Some(ie.resolved),
                },
                evidence,
            };
            proof {
                assert(rec@ =~= import_record(imports@[i as int]));
            }
            out.push(rec);
        }
        i = i + 1;
        proof {
            assert(imports@.take(i as int).drop_last() =~= imports@.take(i - 1));
            assert(imports@.take(i as int).last() == imports@[i - 1]);
            assert(recs_view(out@) =~= import_findings(modules@, imports@.take(i as int)));
        }
    }
    proof {
        assert(imports@.take(imports@.len() as int) =~= imports@);
    }
    out
}

// ---------------------------------------------------------------------
// Inline code scanner
// ---------------------------------------------------------------------

/// A 32-bit little-endian value read at an offset of a byte sequence.
pub open spec fn u32_le_at(s: Seq<u8>, off: int) -> int {
    s[off] + s[off + 1] * 0x100 + s[off + 2] * 0x10000 + s[off + 3] * 0x1000000
}

/// A 64-bit little-endian value read at an offset of a byte sequence.
pub open spec fn u64_le_at(s: Seq<u8>, off: int) -> int {
    s[off] + s[off + 1] * 0x100 + s[off + 2] * 0x10000 + s[off + 3] * 0x1000000 + s[off + 4]
        * 0x100000000 + s[off + 5] * 0x10000000000 + s[off + 6] * 0x1000000000000 + s[off + 7]
        * 0x100000000000000
}

/// The target of the absolute control transfer the leading bytes decode
/// to, if they confidently decode to one. Recognized forms: a relative
/// jump (whose displacement is applied to the address after the
/// instruction), an indirect jump through an inline 64-bit slot, and a
/// move of a 64-bit immediate into a register followed by a jump through
/// it. Anything else, including a relative target outside the address
/// space, is ambiguous and treated as unmodified.
pub open spec fn decoded_jump_target(addr: u64, bytes: Seq<u8>) -> Option<int> {
    if bytes.len() >= 5 && bytes[0] == 0xe9 {
        let rel = u32_le_at(bytes, 1);
        let disp = if rel < 0x80000000 {
            rel
        } else {
            rel - 0x100000000
        };
        let t = addr + 5 + disp;
        if 0 <= t <= u64::MAX {
            Option::Some(t)
        } else {
            Option::None
        }
    } else if bytes.len() >= 14 && bytes[0] == 0xff && bytes[1] == 0x25 && u32_le_at(bytes, 2)
        == 0 {
        Option::Some(u64_le_at(bytes, 6))
    } else if bytes.len() >= 12 && bytes[0] == 0x48 && bytes[1] == 0xb8 && bytes[10] == 0xff
        && bytes[11] == 0xe0 {
        Option::Some(u64_le_at(bytes, 2))
    } else {
        Option::None
    }
}

/// Whether a code site is inline-hooked: its owning module is known, its
/// leading bytes decode to an absolute control transfer, and the target
/// lies outside the owning module's range. An unknown module or an
/// ambiguous byte pattern is treated as unmodified.
pub open spec fn inline_hooked(modules: Seq<ModuleInfo>, site: CodeSite) -> bool {
    match find_module(modules, site.module@) {
        Option::Some(m) => match decoded_jump_target(site.address, site.bytes@) {
            Option::Some(t) => !in_module_range(m, t),
            Option::None => false,
        },
        Option::None => false,
    }
}

/// The record reported for an inline-hooked code site.
pub open spec fn inline_record(site: CodeSite) -> SpecRecord {
    SpecRecord {
        technique: HookTechnique::InlineHook,
        module: site.module@,
        symbol: Option::Some(site.symbol@),
        address: Option::Some(site.address),
        evidence: "first instruction is an absolute jump outside module bounds"@,
    }
}

/// All records the code sites yield, in site order.
pub open spec fn inline_findings(modules: Seq<ModuleInfo>, sites: Seq<CodeSite>) -> Seq<SpecRecord>
    decreases sites.len(),
{
    if sites.len() == 0 {
        Seq::empty()
    } else {
        inline_findings(modules, sites.drop_last()) + (if inline_hooked(modules, sites.last()) {
            seq![inline_record(sites.last())]
        } else {
            Seq::empty()
        })
    }
}

/// Reads a 32-bit little-endian value out of the bytes at an offset.
fn read_u32_le(bytes: &Vec<u8>, off: usize) -> (r: u32)
    requires
        off + 4 <= bytes@.len(),
    ensures
        r as int == u32_le_at(bytes@, off as int),
{
    let _n = bytes.len();
    proof {
        assert(off + 4 <= _n);
    }
    (bytes[off] as u32) + (bytes[off + 1] as u32) * 0x100 + (bytes[off + 2] as u32) * 0x10000 + (
    bytes[off + 3] as u32) * 0x1000000
}

/// Reads a 64-bit little-endian value out of the bytes at an offset.
fn read_u64_le(bytes: &Vec<u8>, off: usize) -> (r: u64)
    requires
        off + 8 <= bytes@.len(),
    ensures
        r as int == u64_le_at(bytes@, off as int),
{
    let _n = bytes.len();
    proof {
        assert(off + 8 <= _n);
    }
    (bytes[off] as u64) + (bytes[off + 1] as u64) * 0x100 + (bytes[off + 2] as u64) * 0x10000 + (
    bytes[off + 3] as u64) * 0x1000000 + (bytes[off + 4] as u64) * 0x100000000 + (bytes[off
        + 5] as u64) * 0x10000000000 + (bytes[off + 6] as u64) * 0x1000000000000 + (bytes[off
        + 7] as u64) * 0x100000000000000
}

/// Decodes the leading bytes of a function, returning the absolute target
/// of the control transfer they encode, when they confidently encode one.
pub fn decode_jump_target(addr: u64, bytes: &Vec<u8>) -> (r: Option<u64>)
    ensures
        match decoded_jump_target(addr, bytes@) {
            Option::Some(t) => r == Option::Some(t as u64) && t == r.unwrap() as int,
            Option::None => r is None,
        },
{
    if bytes.len() >= 5 && bytes[0] == 0xe9 {
        let rel = read_u32_le(bytes, 1);
        let wide: u128 = (addr as u128) + 5 + (rel as u128);
        if rel < 0x80000000 {
            if wide <= u64::MAX as u128 {
                Option::Some(wide as u64)
            } else {
                Option::None
            }
        } else {
            if wide >= 0x100000000 && wide - 0x100000000 <= u64::MAX as u128 {
                Option::Some((wide - 0x100000000) as u64)
            } else {
                Option::None
            }
        }
    } else if bytes.len() >= 14 && bytes[0] == 0xff && bytes[1] == 0x25 && read_u32_le(bytes, 2)
        == 0 {
        Option::Some(read_u64_le(bytes, 6))
    } else if bytes.len() >= 12 && bytes[0] == 0x48 && bytes[1] == 0xb8 && bytes[10] == 0xff
        && bytes[11] == 0xe0 {
        Option::Some(read_u64_le(bytes, 2))
    } else {
        Option::None
    }
}

/// Scans the leading bytes of commonly-hooked exported functions: a site
/// whose bytes decode to an absolute jump or call landing outside its
/// owning module yields an `InlineHook` record. Ambiguous patterns and
/// unknown modules are treated as unmodified.
pub fn scan_inline(modules: &Vec<ModuleInfo>, sites: &Vec<CodeSite>) -> (r: Vec<HookRecord>)
    ensures
        recs_view(r@) == inline_findings(modules@, sites@),
{
    let mut out: Vec<HookRecord> = Vec::new();
    let mut i: usize = 0;
    while i < sites.len()
        invariant
            0 <= i <= sites@.len(),
            recs_view(out@) == inline_findings(modules@, sites@.take(i as int)),
        decreases sites@.len() - i,
    {
        let site = &sites[i];
        let hooked: bool = match find_module_range(modules, &site.module) {
            Option::Some((base, size)) => match decode_jump_target(site.address, &site.bytes) {
                Option::Some(t) => !(base <= t && (t as u128) < (base as u128) + (size as u128)),
                Option::None => false,
            },
            Option::None => false,
        };
        if hooked {
            let rec = HookRecord {
                technique: HookTechnique::InlineHook,
                location: HookLocation {
                    module: site.module.clone(),
                    symbol: Option::Some(site.symbol.clone()),
                    address: Option::Some(site.address),
                },
                evidence: "first instruction is an absolute jump outside module bounds".to_owned(),
            };
            proof {
                assert(rec@ =~= inline_record(sites@[i as int]));
            }
            out.push(rec);
        }
        i = i + 1;
        proof {
            assert(sites@.take(i as int).drop_last() =~= sites@.take(i - 1));
            assert(sites@.take(i as int).last() == sites@[i - 1]);
            assert(recs_view(out@) =~= inline_findings(modules@, sites@.take(i as int)));
        }
    }
    proof {
        assert(sites@.take(sites@.len() as int) =~= sites@);
    }
    out
}

// ---------------------------------------------------------------------
// Trace attachment inspector
// ---------------------------------------------------------------------

/// Whether the trace state is an injection sign: a tracer is attached and
/// its name is not on the allow-list of legitimate debuggers.
pub open spec fn trace_hooked(t: TraceStatus, allowlist: Seq<String>) -> bool {
    t.tracer_pid != 0 && !contains_str(allowlist, t.tracer_name@)
}

/// The record reported for a foreign tracer attachment.
pub open spec fn trace_record(t: TraceStatus) -> SpecRecord {
    SpecRecord {
        technique: HookTechnique::TraceInjection,
        module: t.tracer_name@,
        symbol: Option::None,
        address: Option::None,
        evidence: "process is traced by a controller not on the allow-list"@,
    }
}

/// All records the trace state yields.
pub open spec fn trace_findings(t: TraceStatus, allowlist: Seq<String>) -> Seq<SpecRecord> {
    if trace_hooked(t, allowlist) {
        seq![trace_record(t)]
    } else {
        Seq::empty()
    }
}

/// Inspects the process-control state: an attached tracer that is not an
/// allow-listed legitimate debugger yields a `TraceInjection` record.
pub fn scan_trace(trace: &TraceStatus, config: &ScanConfig) -> (r: Vec<HookRecord>)
    ensures
        recs_view(r@) == trace_findings(*trace, config.debugger_allowlist@),
{
    let mut out: Vec<HookRecord> = Vec::new();
    if trace.tracer_pid != 0 && !contains_name(&config.debugger_allowlist, &trace.tracer_name) {
        let rec = HookRecord {
            technique: HookTechnique::TraceInjection,
            location: HookLocation {
                module: trace.tracer_name.clone(),
                symbol: Option::None,
                address: Option::None,
            },
            evidence: "process is traced by a controller not on the allow-list".to_owned(),
        };
        proof {
            assert(rec@ =~= trace_record(*trace));
        }
        out.push(rec);
    }
    proof {
        assert(recs_view(out@) =~= trace_findings(*trace, config.debugger_allowlist@));
    }
    out
}

} // verus!
