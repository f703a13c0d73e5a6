//! One piece of hook evidence: which technique found it, where it was
//! found, and a human-checkable description. Records carry a total order
//! (technique first, then location, then evidence) so that aggregated
//! results are reproducible whatever order the scanners ran in.

use vstd::prelude::*;
use crate::order::{lex_lt, lemma_lex_trichotomy, lemma_lex_transitive};
use crate::technique::{HookTechnique, technique_order, lemma_technique_order_injective};

verus! {

/// Symbolic description of where an anomaly was found: the module it
/// concerns, the symbol when resolvable, and a numeric address when the
/// technique carries one.
pub struct HookLocation {
    pub module: String,
    pub symbol: Option<String>,
    pub address: Option<u64>,
}

/// One piece of evidence. Immutable once created.
pub struct HookRecord {
    pub technique: HookTechnique,
    pub location: HookLocation,
    pub evidence: String,
}

/// Mathematical model of a record: the same fields with strings read as
/// character sequences.
#[verifier::ext_equal]
pub ghost struct SpecRecord {
    pub technique: HookTechnique,
    pub module: Seq<char>,
    pub symbol: Option<Seq<char>>,
    pub address: Option<u64>,
    pub evidence: Seq<char>,
}

impl View for HookRecord {
    type V = SpecRecord;

    open spec fn view(&self) -> SpecRecord {
        SpecRecord {
            technique: self.technique,
            module: self.location.module@,
            symbol: match self.location.symbol {
                Option::Some(s) => Option::Some(s@),
                Option::None => Option::None,
            },
            address: self.location.address,
            evidence: self.evidence@,
        }
    }
}

/// The model of a record sequence.
pub open spec fn recs_view(s: Seq<HookRecord>) -> Seq<SpecRecord> {
    s.map_values(|r: HookRecord| r@)
}

/// A record is well formed when the fields its technique mandates are
/// present: inline and import-table evidence always names a symbol and
/// carries an address.
pub open spec fn record_wf(r: SpecRecord) -> bool {
    (r.technique == HookTechnique::InlineHook || r.technique == HookTechnique::ImportTableHook)
        ==> (r.symbol is Some && r.address is Some)
}

/// Strict order on optional character sequences: absent first.
pub open spec fn opt_seq_lt(a: Option<Seq<char>>, b: Option<Seq<char>>) -> bool {
    match (a, b) {
        (Option::None, Option::None) => false,
        (Option::None, Option::Some(_)) => true,
        (Option::Some(_), Option::None) => false,
        (Option::Some(x), Option::Some(y)) => lex_lt(x, y),
    }
}

/// Strict order on optional addresses: absent first.
pub open spec fn opt_u64_lt(a: Option<u64>, b: Option<u64>) -> bool {
    match (a, b) {
        (Option::None, Option::None) => false,
        (Option::None, Option::Some(_)) => true,
        (Option::Some(_), Option::None) => false,
        (Option::Some(x), Option::Some(y)) => x < y,
    }
}

/// Strict record order: by technique in the fixed order, then by location
/// (module, symbol, address) ascending, then by evidence.
pub open spec fn record_lt(a: SpecRecord, b: SpecRecord) -> bool {
    if technique_order(a.technique) != technique_order(b.technique) {
        technique_order(a.technique) < technique_order(b.technique)
    } else if a.module != b.module {
        lex_lt(a.module, b.module)
    } else if a.symbol != b.symbol {
        opt_seq_lt(a.symbol, b.symbol)
    } else if a.address != b.address {
        opt_u64_lt(a.address, b.address)
    } else if a.evidence != b.evidence {
        lex_lt(a.evidence, b.evidence)
    } else {
        false
    }
}

/// Reflexive record order, the one `records` is sorted by.
pub open spec fn record_le(a: SpecRecord, b: SpecRecord) -> bool {
    !record_lt(b, a)
}

/// The record order as a relation value, for use with `sorted_by`.
pub open spec fn record_leq() -> spec_fn(SpecRecord, SpecRecord) -> bool {
    |a: SpecRecord, b: SpecRecord| record_le(a, b)
}

/// Of two records, at most one of `record_lt(a, b)` and `record_lt(b, a)`
/// holds, and when neither does the records are equal.
pub proof fn lemma_record_trichotomy(a: SpecRecord, b: SpecRecord)
    ensures
        record_lt(a, b) ==> !record_lt(b, a) && a != b,
        !record_lt(a, b) && !record_lt(b, a) ==> a == b,
{
    lemma_technique_order_injective(a.technique, b.technique);
    lemma_lex_trichotomy(a.module, b.module);
    lemma_lex_trichotomy(a.evidence, b.evidence);
    match (a.symbol, b.symbol) {
        (Option::Some(x), Option::Some(y)) => {
            lemma_lex_trichotomy(x, y);
        }
        _ => {}
    }
    if !record_lt(a, b) && !record_lt(b, a) {
        assert(a =~= b);
    }
}

/// The strict record order is transitive.
pub proof fn lemma_record_lt_transitive(a: SpecRecord, b: SpecRecord, c: SpecRecord)
    requires
        record_lt(a, b),
        record_lt(b, c),
    ensures
        record_lt(a, c),
{
    lemma_technique_order_injective(a.technique, b.technique);
    lemma_technique_order_injective(b.technique, c.technique);
    lemma_technique_order_injective(a.technique, c.technique);
    if a.module == b.module && b.module == c.module {
    } else if lex_lt(a.module, b.module) && lex_lt(b.module, c.module) {
        lemma_lex_transitive(a.module, b.module, c.module);
    }
    lemma_lex_trichotomy(a.module, b.module);
    lemma_lex_trichotomy(b.module, c.module);
    lemma_lex_trichotomy(a.module, c.module);
    match (a.symbol, b.symbol, c.symbol) {
        (Option::Some(x), Option::Some(y), Option::Some(z)) => {
            if lex_lt(x, y) && lex_lt(y, z) {
                lemma_lex_transitive(x, y, z);
            }
            lemma_lex_trichotomy(x, y);
            lemma_lex_trichotomy(y, z);
            lemma_lex_trichotomy(x, z);
        }
        _ => {}
    }
    if lex_lt(a.evidence, b.evidence) && lex_lt(b.evidence, c.evidence) {
        lemma_lex_transitive(a.evidence, b.evidence, c.evidence);
    }
    lemma_lex_trichotomy(a.evidence, b.evidence);
    lemma_lex_trichotomy(b.evidence, c.evidence);
    lemma_lex_trichotomy(a.evidence, c.evidence);
}

/// The record order is a total ordering: reflexive, transitive,
/// antisymmetric and strongly connected.
pub proof fn lemma_record_le_total_ordering()
    ensures
        vstd::relations::total_ordering(record_leq()),
{
    let leq = record_leq();
    assert forall|a: SpecRecord| #[trigger] leq(a, a) by {
        lemma_record_trichotomy(a, a);
    }
    assert forall|a: SpecRecord, b: SpecRecord| #[trigger] leq(a, b) && #[trigger] leq(b, a) implies a == b by {
        lemma_record_trichotomy(a, b);
    }
    assert forall|a: SpecRecord, b: SpecRecord, c: SpecRecord|
        #[trigger] leq(a, b) && #[trigger] leq(b, c) implies leq(a, c) by {
        if record_lt(c, a) {
            lemma_record_trichotomy(a, b);
            lemma_record_trichotomy(b, c);
            if record_lt(a, b) {
                lemma_record_lt_transitive(c, a, b);
                lemma_record_trichotomy(b, c);
            } else {
                assert(a == b);
            }
        }
    }
    assert forall|a: SpecRecord, b: SpecRecord| #[trigger] leq(a, b) || #[trigger] leq(b, a) by {
        lemma_record_trichotomy(a, b);
    }
}

/// Prefix-equal sequences order the same way as their remainders.
proof fn lemma_lex_skip(a: Seq<char>, b: Seq<char>, i: int)
    requires
        0 <= i <= a.len(),
        i <= b.len(),
        forall|j: int| 0 <= j < i ==> a[j] == b[j],
    ensures
        lex_lt(a, b) == lex_lt(a.skip(i), b.skip(i)),
    decreases i,
{
    if i > 0 {
        lemma_lex_skip(a.drop_first(), b.drop_first(), i - 1);
        assert(a.drop_first().skip(i - 1) =~= a.skip(i));
        assert(b.drop_first().skip(i - 1) =~= b.skip(i));
    } else {
        assert(a.skip(0) =~= a);
        assert(b.skip(0) =~= b);
    }
}

/// Decides the strict lexicographic order on two strings.
pub fn str_lex_lt(a: &str, b: &str) -> (r: bool)
    ensures
        r == lex_lt(a@, b@),
{
    let alen = a.unicode_len();
    let blen = b.unicode_len();
    let mut i: usize = 0;
    loop
        invariant
            0 <= i <= alen,
            i <= blen,
            alen == a@.len(),
            blen == b@.len(),
            forall|j: int| 0 <= j < i ==> a@[j] == b@[j],
        ensures
            i >= alen || i >= blen,
        decreases alen - i,
    {
        if i >= alen || i >= blen {
            break;
        }
        let ca = a.get_char(i);
        let cb = b.get_char(i);
        if ca != cb {
            proof {
                lemma_lex_skip(a@, b@, i as int);
            }
            return (ca as u32) < (cb as u32);
        }
        i = i + 1;
    }
    proof {
        lemma_lex_skip(a@, b@, i as int);
    }
    alen < blen
}

/// Decides the strict record order on two records.
pub fn record_lt_exec(a: &HookRecord, b: &HookRecord) -> (r: bool)
    ensures
        r == record_lt(a@, b@),
{
    let ai = a.technique.order_index();
    let bi = b.technique.order_index();
    if ai != bi {
        return ai < bi;
    }
    if !(a.location.module == b.location.module) {
        return str_lex_lt(a.location.module.as_str(), b.location.module.as_str());
    }
    match (&a.location.symbol, &b.location.symbol) {
        (Option::None, Option::Some(_)) => {
            return true;
        }
        (Option::Some(_), Option::None) => {
            return false;
        }
        (Option::Some(x), Option::Some(y)) => {
            if !(*x == *y) {
                return str_lex_lt(x.as_str(), y.as_str());
            }
        }
        (Option::None, Option::None) => {}
    }
    match (&a.location.address, &b.location.address) {
        (Option::None, Option::Some(_)) => {
            return true;
        }
        (Option::Some(_), Option::None) => {
            return false;
        }
        (Option::Some(x), Option::Some(y)) => {
            if *x != *y {
                return *x < *y;
            }
        }
        (Option::None, Option::None) => {}
    }
    if !(a.evidence == b.evidence) {
        return str_lex_lt(a.evidence.as_str(), b.evidence.as_str());
    }
    false
}

} // verus!
