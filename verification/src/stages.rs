//! The registry of native stage implementations and their readiness.

use vstd::prelude::*;
use crate::text::str_eq;

verus! {

/// How far the native implementation of a stage scope has progressed.
#[derive(Clone, Copy, Debug, PartialEq, Eq, Structural)]
pub enum NativeReadiness {
    Planned,
    Scaffolded,
    ParityCertified,
}

/// One registered native stage implementation.
#[derive(Clone, Copy, Debug)]
pub struct StageImplementation {
    pub stage: u8,
    pub scope: &'static str,
    pub crate_name: &'static str,
    pub entrypoint: &'static str,
    pub readiness: NativeReadiness,
    pub details: &'static str,
}

/// The mathematical value of a registry entry.
pub struct StageImplementationView {
    pub stage: u8,
    pub scope: Seq<char>,
    pub crate_name: Seq<char>,
    pub entrypoint: Seq<char>,
    pub readiness: NativeReadiness,
    pub details: Seq<char>,
}

impl View for StageImplementation {
    type V = StageImplementationView;

    open spec fn view(&self) -> StageImplementationView {
        StageImplementationView {
            stage: self.stage,
            scope: self.scope@,
            crate_name: self.crate_name@,
            entrypoint: self.entrypoint@,
            readiness: self.readiness,
            details: self.details@,
        }
    }
}

pub open spec fn entry(
    stage: u8,
    scope: &str,
    crate_name: &str,
    entrypoint: &str,
    readiness: NativeReadiness,
    details: &str,
) -> StageImplementationView {
    StageImplementationView {
        stage,
        scope: scope@,
        crate_name: crate_name@,
        entrypoint: entrypoint@,
        readiness,
        details: details@,
    }
}

/// The registry, in order: stages 1 to 5 on patches, then 5 to 8 on the merged dataset.
pub open spec fn inventory_spec() -> Seq<StageImplementationView> {
    seq![
        entry(1, "patch", "pystamps-core", "native_stage1::run_stage1_native", NativeReadiness::Scaffolded,
            "Canonical raw single-master Stage 1 path is scaffolded; parity certification belongs to the Stage 1 port story."),
        entry(2, "patch", "pystamps-stages", "planned_stage_port", NativeReadiness::ParityCertified,
            "Stage 2 full native semantics are not implemented yet."),
        entry(3, "patch", "pystamps-stages", "planned_stage_port", NativeReadiness::Planned,
            "Stage 3 full native semantics are not implemented yet."),
        entry(4, "patch", "pystamps-stages", "planned_stage_port", NativeReadiness::Planned,
            "Stage 4 full native semantics are not implemented yet."),
        entry(5, "patch", "pystamps-stages", "planned_stage_port", NativeReadiness::Planned,
            "Stage 5 patch promotion full native semantics are not implemented yet."),
        entry(5, "merged", "pystamps-stages", "planned_stage_port", NativeReadiness::Planned,
            "Stage 5 merged aggregation full native semantics are not implemented yet."),
        entry(6, "merged", "pystamps-stages", "planned_stage_port", NativeReadiness::Planned,
            "Stage 6 full native semantics are not implemented yet."),
        entry(7, "merged", "pystamps-stages", "planned_stage_port", NativeReadiness::Planned,
            "Stage 7 full native semantics are not implemented yet."),
        entry(8, "merged", "pystamps-stages", "planned_stage_port", NativeReadiness::Planned,
            "Stage 8 full native semantics are not implemented yet."),
    ]
}

fn implementation(
    stage: u8,
    scope: &'static str,
    crate_name: &'static str,
    entrypoint: &'static str,
    readiness: NativeReadiness,
    details: &'static str,
) -> (r: StageImplementation)
    ensures
        r@ == entry(stage, scope, crate_name, entrypoint, readiness, details),
{
    StageImplementation { stage, scope, crate_name, entrypoint, readiness, details }
}

/// Every registered native stage implementation, in registry order.
pub fn native_stage_inventory() -> (r: Vec<StageImplementation>)
    ensures
        r@.len() == inventory_spec().len(),
        forall|i: int| 0 <= i < r@.len() ==> #[trigger] r@[i]@ == inventory_spec()[i],
{
    let mut v: Vec<StageImplementation> = Vec::new();
    v.push(implementation(1, "patch", "pystamps-core", "native_stage1::run_stage1_native", NativeReadiness::Scaffolded,
        "Canonical raw single-master Stage 1 path is scaffolded; parity certification belongs to the Stage 1 port story."));
    v.push(implementation(2, "patch", "pystamps-stages", "planned_stage_port", NativeReadiness::ParityCertified,
        "Stage 2 full native semantics are not implemented yet."));
    v.push(implementation(3, "patch", "pystamps-stages", "planned_stage_port", NativeReadiness::Planned,
        "Stage 3 full native semantics are not implemented yet."));
    v.push(implementation(4, "patch", "pystamps-stages", "planned_stage_port", NativeReadiness::Planned,
        "Stage 4 full native semantics are not implemented yet."));
    v.push(implementation(5, "patch", "pystamps-stages", "planned_stage_port", NativeReadiness::Planned,
        "Stage 5 patch promotion full native semantics are not implemented yet."));
    v.push(implementation(5, "merged", "pystamps-stages", "planned_stage_port", NativeReadiness::Planned,
        "Stage 5 merged aggregation full native semantics are not implemented yet."));
    v.push(implementation(6, "merged", "pystamps-stages", "planned_stage_port", NativeReadiness::Planned,
        "Stage 6 full native semantics are not implemented yet."));
    v.push(implementation(7, "merged", "pystamps-stages", "planned_stage_port", NativeReadiness::Planned,
        "Stage 7 full native semantics are not implemented yet."));
    v.push(implementation(8, "merged", "pystamps-stages", "planned_stage_port", NativeReadiness::Planned,
        "Stage 8 full native semantics are not implemented yet."));
    assert(v@.len() == 9);
    v
}

/// Some registry entry has this stage and scope.
pub open spec fn entry_matches(e: StageImplementationView, stage: u8, scope: Seq<char>) -> bool {
    e.stage == stage && e.scope == scope
}

/// Whether the registry marks this stage scope as parity certified.
pub fn native_stage_is_parity_certified(stage: u8, scope: &str) -> (r: bool)
    ensures
        r == exists|i: int|
            0 <= i < inventory_spec().len() && entry_matches(#[trigger] inventory_spec()[i], stage, scope@)
                && inventory_spec()[i].readiness == NativeReadiness::ParityCertified,
{
    let inv = native_stage_inventory();
    let mut i: usize = 0;
    while i < inv.len()
        invariant
            i <= inv@.len(),
            inv@.len() == inventory_spec().len(),
            forall|k: int| 0 <= k < inv@.len() ==> #[trigger] inv@[k]@ == inventory_spec()[k],
            forall|k: int|
                0 <= k < i ==> !(entry_matches(#[trigger] inventory_spec()[k], stage, scope@)
                    && inventory_spec()[k].readiness == NativeReadiness::ParityCertified),
        decreases inv@.len() - i,
    {
        let e = inv[i];
        assert(e@ == inventory_spec()[i as int]);
        if e.stage == stage && str_eq(e.scope, scope) && e.readiness == NativeReadiness::ParityCertified {
            return true;
        }
        i = i + 1;
    }
    false
}


/// The text shown for a stage scope that has no registry entry.
pub open spec fn no_details_text() -> Seq<char> {
    "No native stage scaffold has been registered for this stage scope."@
}

/// The details of the first of `entries` with this stage and scope, or the
/// fixed message when none has them.
pub open spec fn first_details(entries: Seq<StageImplementationView>, stage: u8, scope: Seq<char>) -> Seq<char>
    decreases entries.len(),
{
    if entries.len() == 0 {
        no_details_text()
    } else if entry_matches(entries[0], stage, scope) {
        entries[0].details
    } else {
        first_details(entries.drop_first(), stage, scope)
    }
}

/// The details of the first registry entry with this stage and scope, or a fixed
/// message when there is none.
pub fn native_stage_details(stage: u8, scope: &str) -> (r: &'static str)
    ensures
        r@ == first_details(inventory_spec(), stage, scope@),
{
    let inv = native_stage_inventory();
    let mut i: usize = 0;
    assert(inventory_spec().skip(0) =~= inventory_spec());
    while i < inv.len()
        invariant
            i <= inv@.len(),
            inv@.len() == inventory_spec().len(),
            forall|k: int| 0 <= k < inv@.len() ==> #[trigger] inv@[k]@ == inventory_spec()[k],
            first_details(inventory_spec(), stage, scope@) == first_details(inventory_spec().skip(i as int), stage, scope@),
        decreases inv@.len() - i,
    {
        let e = inv[i];
        assert(e@ == inventory_spec()[i as int]);
        assert(inventory_spec().skip(i as int)[0] == inventory_spec()[i as int]);
        assert(inventory_spec().skip(i as int).drop_first() =~= inventory_spec().skip(i + 1));
        if e.stage == stage && str_eq(e.scope, scope) {
            return e.details;
        }
        i = i + 1;
    }
    assert(inventory_spec().skip(i as int).len() == 0);
    "No native stage scaffold has been registered for this stage scope."
}

/// Whether the registry marks this stage scope as parity certified.
pub open spec fn certified(stage: u8, scope: Seq<char>) -> bool {
    exists|i: int|
        0 <= i < inventory_spec().len() && entry_matches(#[trigger] inventory_spec()[i], stage, scope)
            && inventory_spec()[i].readiness == NativeReadiness::ParityCertified
}

/// What the coverage report says of one stage scope.
pub struct ScopeCoverage {
    /// The native implementation has passed its parity gate.
    pub parity_certified: bool,
    /// Native coverage was switched off for this scope.
    pub disabled: bool,
    /// No reference-implementation run is needed for this scope: it is
    /// certified and not switched off.
    pub native_stage: bool,
    /// Why the scope is not native, when it is not.
    pub not_native_reason: Option<&'static str>,
    /// Why the scope is not parity certified, when it is not.
    pub not_parity_certified_reason: Option<&'static str>,
}

/// The coverage of a stage scope: certification comes from the registry,
/// and a scope is native only when it is certified and not switched off.
/// Where a flag is false, its reason is the registry's details for the scope.
pub fn scope_coverage(stage: u8, scope: &str, disabled: bool) -> (r: ScopeCoverage)
    ensures
        r.parity_certified == certified(stage, scope@),
        r.disabled == disabled,
        r.native_stage == (certified(stage, scope@) && !disabled),
        r.native_stage ==> r.not_native_reason is None,
        !r.native_stage ==> (r.not_native_reason matches Some(t) && t@ == first_details(inventory_spec(), stage, scope@)),
        r.parity_certified ==> r.not_parity_certified_reason is None,
        !r.parity_certified ==> (r.not_parity_certified_reason matches Some(t) && t@ == first_details(inventory_spec(), stage, scope@)),
{
    let parity_certified = native_stage_is_parity_certified(stage, scope);
    let native_stage = parity_certified && !disabled;
    let details = native_stage_details(stage, scope);
    ScopeCoverage {
        parity_certified,
        disabled,
        native_stage,
        not_native_reason: if native_stage { None } else { Some(details) },
        not_parity_certified_reason: if parity_certified { None } else { Some(details) },
    }
}

/// Of all stage scopes, only stage 2 on a patch is registered as parity
/// certified.
pub proof fn law_only_stage2_is_parity_certified(stage: u8, scope: Seq<char>)
    ensures
        certified(stage, scope) <==> (stage == 2 && scope == "patch"@),
{
    reveal_strlit("patch");
    reveal_strlit("merged");
    if stage == 2 && scope == "patch"@ {
        assert(entry_matches(inventory_spec()[1], stage, scope));
    }
}

/// The registry covers the whole chain: every stage of the chain has an entry
/// for the scope it runs on, and stage 5 has one for its merge as well.
pub proof fn law_inventory_covers_chain(stage: u8)
    requires
        1 <= stage <= 8,
    ensures
        exists|i: int|
            0 <= i < inventory_spec().len() && entry_matches(
                #[trigger] inventory_spec()[i],
                stage,
                crate::plan::stage_scope_of(stage).spec_label(),
            ),
        stage == 5 ==> exists|i: int| 0 <= i < inventory_spec().len() && entry_matches(#[trigger] inventory_spec()[i], 5, "merged"@),
{
    let inv = inventory_spec();
    if stage == 1 {
        assert(entry_matches(inv[0], stage, "patch"@));
    } else if stage == 2 {
        assert(entry_matches(inv[1], stage, "patch"@));
    } else if stage == 3 {
        assert(entry_matches(inv[2], stage, "patch"@));
    } else if stage == 4 {
        assert(entry_matches(inv[3], stage, "patch"@));
    } else if stage == 5 {
        assert(entry_matches(inv[4], stage, "patch"@));
        assert(entry_matches(inv[5], 5, "merged"@));
    } else if stage == 6 {
        assert(entry_matches(inv[6], stage, "merged"@));
    } else if stage == 7 {
        assert(entry_matches(inv[7], stage, "merged"@));
    } else {
        assert(entry_matches(inv[8], stage, "merged"@));
    }
}

} // verus!
