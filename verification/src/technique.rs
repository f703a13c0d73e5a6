//! The closed set of hook techniques the engine can detect, their fixed
//! ordering, their stable report labels, and which techniques apply on
//! which platform.

use vstd::prelude::*;

verus! {

/// One detection technique. Each variant corresponds to exactly one
/// scanner. The order below is the fixed aggregation order of records.
#[derive(Clone, Copy, Debug, PartialEq, Eq, Structural)]
pub enum HookTechnique {
    InlineHook,
    ImportTableHook,
    ForcedPreload,
    TraceInjection,
    DynamicLoaderInsertion,
}

/// Position of a technique in the fixed aggregation order.
pub open spec fn technique_order(t: HookTechnique) -> int {
    match t {
        HookTechnique::InlineHook => 0,
        HookTechnique::ImportTableHook => 1,
        HookTechnique::ForcedPreload => 2,
        HookTechnique::TraceInjection => 3,
        HookTechnique::DynamicLoaderInsertion => 4,
    }
}

/// Two techniques with the same order position are the same technique.
pub proof fn lemma_technique_order_injective(a: HookTechnique, b: HookTechnique)
    ensures
        technique_order(a) == technique_order(b) ==> a == b,
{
}

impl HookTechnique {
    /// Position of this technique in the fixed aggregation order.
    pub fn order_index(&self) -> (r: u8)
        ensures
            r as int == technique_order(*self),
    {
        match self {
            HookTechnique::InlineHook => 0,
            HookTechnique::ImportTableHook => 1,
            HookTechnique::ForcedPreload => 2,
            HookTechnique::TraceInjection => 3,
            HookTechnique::DynamicLoaderInsertion => 4,
        }
    }

    /// Stable, human-readable label of the technique. These exact strings
    /// are a compatibility surface for reporting layers and never change.
    pub fn label(&self) -> (r: &'static str)
        ensures
            *self == HookTechnique::InlineHook ==> r@ == "InlineHook"@,
            *self == HookTechnique::ImportTableHook ==> r@ == "IATHook"@,
            *self == HookTechnique::ForcedPreload ==> r@ == "LD_PRELOAD"@,
            *self == HookTechnique::TraceInjection ==> r@ == "PtraceInjection"@,
            *self == HookTechnique::DynamicLoaderInsertion ==> r@ == "DYLD_INSERT_LIBRARIES"@,
    {
        match self {
            HookTechnique::InlineHook => "InlineHook",
            HookTechnique::ImportTableHook => "IATHook",
            HookTechnique::ForcedPreload => "LD_PRELOAD",
            HookTechnique::TraceInjection => "PtraceInjection",
            HookTechnique::DynamicLoaderInsertion => "DYLD_INSERT_LIBRARIES",
        }
    }
}

/// All techniques in the fixed aggregation order.
pub open spec fn all_techniques() -> Seq<HookTechnique> {
    seq![
        HookTechnique::InlineHook,
        HookTechnique::ImportTableHook,
        HookTechnique::ForcedPreload,
        HookTechnique::TraceInjection,
        HookTechnique::DynamicLoaderInsertion,
    ]
}

/// All techniques in the fixed aggregation order, as a vector.
pub fn all_techniques_vec() -> (r: Vec<HookTechnique>)
    ensures
        r@ == all_techniques(),
{
    let mut v: Vec<HookTechnique> = Vec::new();
    v.push(HookTechnique::InlineHook);
    v.push(HookTechnique::ImportTableHook);
    v.push(HookTechnique::ForcedPreload);
    v.push(HookTechnique::TraceInjection);
    v.push(HookTechnique::DynamicLoaderInsertion);
    proof {
        assert(v@ =~= all_techniques());
    }
    v
}

/// The platform the scan runs on. Selected once at startup by the caller;
/// it decides which techniques have an underlying mechanism at all.
#[derive(Clone, Copy, Debug, PartialEq, Eq, Structural)]
pub enum Platform {
    Linux,
    MacOs,
    Windows,
    Other,
}

/// Whether a technique has an underlying mechanism on a platform.
/// A technique that does not is reported as skipped, never as a count.
pub open spec fn spec_applicable(p: Platform, t: HookTechnique) -> bool {
    match p {
        Platform::Linux => t != HookTechnique::DynamicLoaderInsertion,
        Platform::MacOs => t != HookTechnique::ForcedPreload,
        Platform::Windows => t == HookTechnique::InlineHook || t == HookTechnique::ImportTableHook,
        Platform::Other => false,
    }
}

/// Whether a technique has an underlying mechanism on a platform.
pub fn applicable(p: Platform, t: HookTechnique) -> (r: bool)
    ensures
        r == spec_applicable(p, t),
{
    match p {
        Platform::Linux => !matches!(t, HookTechnique::DynamicLoaderInsertion),
        Platform::MacOs => !matches!(t, HookTechnique::ForcedPreload),
        Platform::Windows => matches!(t, HookTechnique::InlineHook | HookTechnique::ImportTableHook),
        Platform::Other => false,
    }
}

/// Applicability of techniques on a platform, as a predicate value.
pub open spec fn app_pred(p: Platform) -> spec_fn(HookTechnique) -> bool {
    |t: HookTechnique| spec_applicable(p, t)
}

/// Non-applicability of techniques on a platform, as a predicate value.
pub open spec fn napp_pred(p: Platform) -> spec_fn(HookTechnique) -> bool {
    |t: HookTechnique| !spec_applicable(p, t)
}

/// The techniques applicable on a platform, in the fixed order.
pub open spec fn applicable_seq(p: Platform) -> Seq<HookTechnique> {
    all_techniques().filter(app_pred(p))
}

/// The techniques not applicable on a platform, in the fixed order.
pub open spec fn skipped_seq(p: Platform) -> Seq<HookTechnique> {
    all_techniques().filter(napp_pred(p))
}

/// The capability set of a platform: the techniques a scan there will
/// attempt, in the fixed order.
pub fn applicable_techniques(p: Platform) -> (r: Vec<HookTechnique>)
    ensures
        r@ == applicable_seq(p),
{
    let all = all_techniques_vec();
    let mut out: Vec<HookTechnique> = Vec::new();
    let mut i: usize = 0;
    proof {
        assert(all_techniques().take(0) =~= Seq::<HookTechnique>::empty());
    }
    while i < all.len()
        invariant
            0 <= i <= all@.len(),
            all@ == all_techniques(),
            out@ == all_techniques().take(i as int).filter(app_pred(p)),
        decreases all@.len() - i,
    {
        let t = all[i];
        proof {
            assert(all_techniques().take(i + 1) =~= all_techniques().take(i as int).push(t));
            all_techniques().take(i as int).lemma_filter_push(t, app_pred(p));
        }
        if applicable(p, t) {
            out.push(t);
        }
        i = i + 1;
    }
    proof {
        assert(all_techniques().take(all@.len() as int) =~= all_techniques());
    }
    out
}

} // verus!
