//! Tests for hook detection: stable labels and the technique set.

use ghost_core::technique::{applicable_techniques, HookTechnique, Platform};

#[test]
fn test_hook_type_display() {
    assert_eq!(HookTechnique::InlineHook.label(), "InlineHook");
    assert_eq!(HookTechnique::ImportTableHook.label(), "IATHook");
    assert_eq!(HookTechnique::ForcedPreload.label(), "LD_PRELOAD");
    assert_eq!(HookTechnique::TraceInjection.label(), "PtraceInjection");
    assert_eq!(
        HookTechnique::DynamicLoaderInsertion.label(),
        "DYLD_INSERT_LIBRARIES"
    );
}

#[test]
fn test_dyld_hook_type() {
    // Just verify the hook type exists and can be created
    let hook_type = HookTechnique::DynamicLoaderInsertion;
    assert_eq!(hook_type.label(), "DYLD_INSERT_LIBRARIES");
}

#[test]
fn capability_sets_follow_the_platform() {
    let linux: Vec<u8> = applicable_techniques(Platform::Linux)
        .iter()
        .map(|t| t.order_index())
        .collect();
    assert_eq!(linux, vec![0, 1, 2, 3]);
    let macos: Vec<u8> = applicable_techniques(Platform::MacOs)
        .iter()
        .map(|t| t.order_index())
        .collect();
    assert_eq!(macos, vec![0, 1, 3, 4]);
    let windows: Vec<u8> = applicable_techniques(Platform::Windows)
        .iter()
        .map(|t| t.order_index())
        .collect();
    assert_eq!(windows, vec![0, 1]);
    assert!(applicable_techniques(Platform::Other).is_empty());
}

#[test]
fn test_order_index_is_fixed() {
    assert_eq!(HookTechnique::InlineHook.order_index(), 0);
    assert_eq!(HookTechnique::ImportTableHook.order_index(), 1);
    assert_eq!(HookTechnique::ForcedPreload.order_index(), 2);
    assert_eq!(HookTechnique::TraceInjection.order_index(), 3);
    assert_eq!(HookTechnique::DynamicLoaderInsertion.order_index(), 4);
}
