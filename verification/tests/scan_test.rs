//! Tests for the individual scanners and for the deterministic ordering
//! of aggregated records.

use ghost_core::record::{HookLocation, HookRecord};
use ghost_core::scan::{
    decode_jump_target, scan_imports, scan_inline, CodeSite, ImportEntry, ModuleInfo,
};
use ghost_core::sort::sort_records;
use ghost_core::technique::HookTechnique;

fn libc_module() -> ModuleInfo {
    ModuleInfo {
        name: String::from("libc.so.6"),
        base: 0x1000,
        size: 0x2000,
    }
}

#[test]
fn import_inside_expected_module_is_clean() {
    let modules = vec![libc_module()];
    let imports = vec![ImportEntry {
        module: String::from("app"),
        symbol: String::from("malloc"),
        resolved: 0x1800,
        provider: String::from("libc.so.6"),
    }];
    assert!(scan_imports(&modules, &imports).is_empty());
}

#[test]
fn import_outside_expected_module_is_a_hook() {
    let modules = vec![libc_module()];
    let imports = vec![ImportEntry {
        module: String::from("app"),
        symbol: String::from("malloc"),
        resolved: 0x9999,
        provider: String::from("libc.so.6"),
    }];
    let recs = scan_imports(&modules, &imports);
    assert_eq!(recs.len(), 1);
    assert!(matches!(recs[0].technique, HookTechnique::ImportTableHook));
    assert_eq!(recs[0].location.module, "app");
    assert_eq!(recs[0].location.symbol.as_deref(), Some("malloc"));
    assert_eq!(recs[0].location.address, Some(0x9999));
}

#[test]
fn import_with_unknown_provider_cannot_be_verified() {
    let modules = vec![libc_module()];
    let imports = vec![ImportEntry {
        module: String::from("app"),
        symbol: String::from("mystery"),
        resolved: 0x9999,
        provider: String::from("libmystery.so"),
    }];
    // Unresolvable providers are excluded from findings, not reported.
    assert!(scan_imports(&modules, &imports).is_empty());
}

#[test]
fn relative_jump_target_is_decoded_exactly() {
    // jmp +0x100: lands at address + 5 + 0x100.
    let bytes = vec![0xe9, 0x00, 0x01, 0x00, 0x00];
    assert_eq!(decode_jump_target(0x1000, &bytes), Some(0x1105));
    // jmp -4: lands at address + 1.
    let back = vec![0xe9, 0xfc, 0xff, 0xff, 0xff];
    assert_eq!(decode_jump_target(0x1000, &back), Some(0x1001));
}

#[test]
fn indirect_jump_slot_is_decoded_exactly() {
    // jmp [rip+0]; the 64-bit slot follows the instruction.
    let mut bytes = vec![0xff, 0x25, 0x00, 0x00, 0x00, 0x00];
    bytes.extend_from_slice(&[0x88, 0x77, 0x66, 0x55, 0x44, 0x33, 0x22, 0x11]);
    assert_eq!(decode_jump_target(0x1000, &bytes), Some(0x1122334455667788));
}

#[test]
fn ordinary_prologue_is_not_decoded() {
    // push rbp; mov rbp, rsp
    let bytes = vec![0x55, 0x48, 0x89, 0xe5, 0x90];
    assert_eq!(decode_jump_target(0x1000, &bytes), None);
}

fn site(bytes: Vec<u8>) -> CodeSite {
    CodeSite {
        module: String::from("libc.so.6"),
        symbol: String::from("open"),
        address: 0x1100,
        bytes,
    }
}

#[test]
fn inline_jump_outside_module_is_a_hook() {
    let modules = vec![libc_module()];
    // jmp +0x4000: target 0x5105 is outside [0x1000, 0x3000).
    let sites = vec![site(vec![0xe9, 0x00, 0x40, 0x00, 0x00])];
    let recs = scan_inline(&modules, &sites);
    assert_eq!(recs.len(), 1);
    assert!(matches!(recs[0].technique, HookTechnique::InlineHook));
    assert_eq!(recs[0].location.address, Some(0x1100));
    assert_eq!(
        recs[0].evidence,
        "first instruction is an absolute jump outside module bounds"
    );
}

#[test]
fn inline_jump_within_module_is_clean() {
    let modules = vec![libc_module()];
    // jmp +0x10: target 0x1115 stays inside the module.
    let sites = vec![site(vec![0xe9, 0x10, 0x00, 0x00, 0x00])];
    assert!(scan_inline(&modules, &sites).is_empty());
}

#[test]
fn ambiguous_bytes_are_treated_as_unmodified() {
    let modules = vec![libc_module()];
    let sites = vec![site(vec![0x55, 0x48, 0x89, 0xe5, 0x90])];
    assert!(scan_inline(&modules, &sites).is_empty());
}

fn rec(technique: HookTechnique, module: &str, address: Option<u64>) -> HookRecord {
    HookRecord {
        technique,
        location: HookLocation {
            module: String::from(module),
            symbol: None,
            address,
        },
        evidence: String::from("synthetic"),
    }
}

#[test]
fn aggregation_sorts_by_technique_then_location() {
    // Deliberately out of order: trace first, then preload, then two
    // inline records with descending addresses and modules.
    let records = vec![
        rec(HookTechnique::TraceInjection, "tracer", None),
        rec(HookTechnique::ForcedPreload, "LD_PRELOAD", None),
        rec(HookTechnique::InlineHook, "zlib", Some(0x30)),
        rec(HookTechnique::InlineHook, "libc", Some(0x20)),
        rec(HookTechnique::InlineHook, "libc", Some(0x10)),
        rec(HookTechnique::ImportTableHook, "app", Some(0x40)),
    ];
    let sorted = sort_records(records);
    let techniques: Vec<u8> = sorted.iter().map(|r| r.technique.order_index()).collect();
    assert_eq!(techniques, vec![0, 0, 0, 1, 2, 3]);
    assert_eq!(sorted[0].location.module, "libc");
    assert_eq!(sorted[0].location.address, Some(0x10));
    assert_eq!(sorted[1].location.module, "libc");
    assert_eq!(sorted[1].location.address, Some(0x20));
    assert_eq!(sorted[2].location.module, "zlib");
    assert_eq!(sorted[3].location.module, "app");
    assert_eq!(sorted[4].location.module, "LD_PRELOAD");
    assert_eq!(sorted[5].location.module, "tracer");
}
