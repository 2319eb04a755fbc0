use pystamps::plan::selected_stages;
use pystamps::stages::{native_stage_details, native_stage_inventory, native_stage_is_parity_certified, scope_coverage, NativeReadiness};

#[test]
fn inventory_covers_all_stage_scopes() {
    let scopes: Vec<(u8, &str)> = native_stage_inventory()
        .iter()
        .map(|implementation| (implementation.stage, implementation.scope))
        .collect();

    assert_eq!(
        scopes,
        vec![
            (1, "patch"),
            (2, "patch"),
            (3, "patch"),
            (4, "patch"),
            (5, "patch"),
            (5, "merged"),
            (6, "merged"),
            (7, "merged"),
            (8, "merged"),
        ]
    );
}

#[test]
fn scaffolded_stage_is_not_parity_certified() {
    assert!(!native_stage_is_parity_certified(1, "patch"));
}

#[test]
fn only_stage_two_is_parity_certified() {
    for implementation in native_stage_inventory() {
        let expected = implementation.stage == 2 && implementation.scope == "patch";
        assert_eq!(native_stage_is_parity_certified(implementation.stage, implementation.scope), expected);
        assert_eq!(implementation.readiness == NativeReadiness::ParityCertified, expected);
    }
    assert!(!native_stage_is_parity_certified(2, "merged"));
}

#[test]
fn coverage_reports_stage2_native_after_parity_certification() {
    let coverage: Vec<_> = selected_stages(2, 2)
        .iter()
        .map(|stage| scope_coverage(stage.stage_id, stage.scope.label(), false))
        .collect();
    assert_eq!(coverage.len(), 1);
    assert!(coverage[0].native_stage);
    assert!(coverage[0].parity_certified);
    assert_eq!(coverage[0].not_native_reason, None);
}

#[test]
fn stage_one_is_the_only_scaffolded_stage() {
    let inventory = native_stage_inventory();
    assert_eq!(inventory[0].readiness, NativeReadiness::Scaffolded);
    assert_eq!(inventory[0].entrypoint, "native_stage1::run_stage1_native");
    assert_eq!(inventory[1].readiness, NativeReadiness::ParityCertified);
    assert!(inventory[2..].iter().all(|i| i.readiness == NativeReadiness::Planned));
}

#[test]
fn details_come_from_the_matching_entry() {
    assert_eq!(native_stage_details(5, "merged"), "Stage 5 merged aggregation full native semantics are not implemented yet.");
    assert_eq!(native_stage_details(2, "patch"), "Stage 2 full native semantics are not implemented yet.");
}

#[test]
fn details_of_an_unregistered_scope_say_so() {
    assert_eq!(native_stage_details(6, "patch"), "No native stage scaffold has been registered for this stage scope.");
    assert_eq!(native_stage_details(9, "merged"), "No native stage scaffold has been registered for this stage scope.");
}

#[test]
fn scope_coverage_reports_certification_and_reasons() {
    let c = scope_coverage(1, "patch", false);
    assert!(!c.parity_certified);
    assert!(!c.native_stage);
    assert!(!c.disabled);
    assert_eq!(c.not_parity_certified_reason, Some(native_stage_details(1, "patch")));
    assert_eq!(c.not_native_reason, Some(native_stage_details(1, "patch")));
    let d = scope_coverage(9, "patch", true);
    assert!(d.disabled);
    assert!(!d.native_stage);
    assert_eq!(d.not_native_reason, Some("No native stage scaffold has been registered for this stage scope."));
}
